//! The read-only query surface over a configuration: resolving a task path
//! to a task, and counting the dependency edges reachable from a path.

use vstd::prelude::*;

use crate::config::{assoc_get, Config, Task};
use crate::errors::WorkbenchError;
use crate::task_path::{clone_path, spec_parse, task_path_valid, TaskPath, TaskPathView};

verus! {

/// The task a path addresses: under the namespace's mapping when the path is
/// namespaced, under the top-level mapping otherwise.
pub open spec fn spec_task_at(config: Config, p: TaskPathView) -> Option<Task> {
    match p.namespace {
        Some(ns) => match config.namespaces {
            Some(nss) => match assoc_get(nss@, ns) {
                Some(n) => assoc_get(n.tasks@, p.name),
                None => None,
            },
            None => None,
        },
        None => match config.tasks {
            Some(ts) => assoc_get(ts@, p.name),
            None => None,
        },
    }
}

/// Look a task path up in the configuration.
pub fn get_task_at_path<'a>(config: &'a Config, task_path: &TaskPath) -> (r: Option<&'a Task>)
    ensures
        match r {
            Some(t) => spec_task_at(*config, task_path@) == Some(*t),
            None => spec_task_at(*config, task_path@) is None,
        },
{
    match &task_path.namespace {
        Some(ns) => match &config.namespaces {
            Some(nss) => match nss.get(ns) {
                Some(n) => n.tasks.get(&task_path.name),
                None => None,
            },
            None => None,
        },
        None => match &config.tasks {
            Some(ts) => ts.get(&task_path.name),
            None => None,
        },
    }
}

/// Addition capped at `u64::MAX`; dependency counts saturate there.
pub open spec fn sat_add(a: nat, b: nat) -> nat {
    if a + b > u64::MAX {
        u64::MAX as nat
    } else {
        a + b
    }
}

fn sat_add_u64(a: u64, b: u64) -> (r: u64)
    ensures
        r as nat == sat_add(a as nat, b as nat),
{
    if a > u64::MAX - b {
        u64::MAX
    } else {
        a + b
    }
}

/// Why a dependency count fails: a dependency string that does not parse,
/// or a walk deeper than the depth budget allows.
pub enum CountError {
    MalformedDependency,
    BudgetExhausted,
}

/// The dependency edges reachable from a path, counted depth-first: one per
/// dependency entry plus the edges reachable through it, so a task reached
/// along several paths is counted once per path.  `Ok(None)` marks a walk
/// that reached an unresolvable task, `Err` a malformed dependency string or
/// an exhausted depth budget.
pub open spec fn spec_count_deps(config: Config, p: TaskPathView, fuel: nat) -> Result<
    Option<nat>,
    CountError,
>
    decreases fuel, 0int,
{
    if fuel == 0 {
        Err(CountError::BudgetExhausted)
    } else {
        match spec_task_at(config, p) {
            None => Ok(None),
            Some(t) => match t.dependencies {
                None => Ok(Some(0)),
                Some(deps) => spec_count_list(config, deps@, (fuel - 1) as nat),
            },
        }
    }
}

pub open spec fn spec_count_list(config: Config, deps: Seq<String>, fuel: nat) -> Result<
    Option<nat>,
    CountError,
>
    decreases fuel, deps.len() + 1,
{
    if deps.len() == 0 {
        Ok(Some(0))
    } else if !task_path_valid(deps[0]@) {
        Err(CountError::MalformedDependency)
    } else {
        match spec_count_deps(config, spec_parse(deps[0]@), fuel) {
            Err(e) => Err(e),
            Ok(None) => Ok(None),
            Ok(Some(h)) => match spec_count_list(config, deps.skip(1), fuel) {
                Err(e) => Err(e),
                Ok(None) => Ok(None),
                Ok(Some(t)) => Ok(Some(sat_add(1, sat_add(h, t)))),
            },
        }
    }
}

/// Counting agrees with lookup: a successful count means the target task
/// resolves, and an unresolvable target always counts to `None`.
pub proof fn lemma_count_dependencies_resolves(config: Config, p: TaskPathView, fuel: nat)
    requires
        fuel > 0,
    ensures
        spec_count_deps(config, p, fuel) matches Ok(v) && v is Some ==> spec_task_at(config, p)
            is Some,
        spec_task_at(config, p) is None ==> spec_count_deps(config, p, fuel) == Ok::<
            Option<nat>,
            CountError,
        >(None),
{
}

/// The depth budget for dependency walks: one more than the number of tasks
/// the configuration holds, which no acyclic walk can exceed.
pub open spec fn spec_count_fuel(config: Config) -> nat {
    sat_add(1, sat_add(spec_top_task_total(config), spec_ns_task_total(config)))
}

pub open spec fn spec_top_task_total(config: Config) -> nat {
    match config.tasks {
        Some(ts) => ts@.len(),
        None => 0,
    }
}

pub open spec fn spec_ns_task_total(config: Config) -> nat {
    match config.namespaces {
        Some(nss) => spec_ns_list_total(nss@),
        None => 0,
    }
}

pub open spec fn spec_ns_list_total(nss: Seq<(String, crate::config::Namespace)>) -> nat
    decreases nss.len(),
{
    if nss.len() == 0 {
        0
    } else {
        sat_add(nss[0].1.tasks@.len(), spec_ns_list_total(nss.skip(1)))
    }
}

pub(crate) fn count_fuel(config: &Config) -> (r: u64)
    ensures
        r as nat == spec_count_fuel(*config),
{
    let top: u64 = match &config.tasks {
        Some(ts) => ts.len() as u64,
        None => 0,
    };
    let mut ns_total: u64 = 0;
    match &config.namespaces {
        Some(nss) => {
            let n = nss.len();
            let mut i: usize = n;
            proof {
                assert(nss@.skip(n as int) =~= Seq::<(String, crate::config::Namespace)>::empty());
            }
            while i > 0
                invariant
                    0 <= i <= nss@.len(),
                    config.namespaces == Some(*nss),
                    ns_total as nat == spec_ns_list_total(nss@.skip(i as int)),
                decreases i,
            {
                i -= 1;
                ns_total = sat_add_u64(nss.namespace_at(i).tasks.len() as u64, ns_total);
                proof {
                    assert(nss@.skip(i as int)[0] == nss@[i as int]);
                    assert(nss@.skip(i as int).skip(1) =~= nss@.skip(i + 1));
                }
            }
            proof {
                assert(nss@.skip(0) =~= nss@);
            }
        },
        None => {},
    }
    sat_add_u64(1, sat_add_u64(top, ns_total))
}

fn count_deps_fueled(config: &Config, task_path: &TaskPath, fuel: u64) -> (r: Result<
    Option<u64>,
    WorkbenchError,
>)
    ensures
        match r {
            Ok(Some(n)) => spec_count_deps(*config, task_path@, fuel as nat) == Ok::<
                Option<nat>,
                CountError,
            >(Some(n as nat)),
            Ok(None) => spec_count_deps(*config, task_path@, fuel as nat) == Ok::<
                Option<nat>,
                CountError,
            >(None),
            Err(e) => match spec_count_deps(*config, task_path@, fuel as nat) {
                Err(CountError::MalformedDependency) => e
                    matches WorkbenchError::InvalidTaskPath(_),
                Err(CountError::BudgetExhausted) => e matches WorkbenchError::DependencyCycle(_),
                _ => false,
            },
        },
    decreases fuel, 0int,
{
    if fuel == 0 {
        return Err(WorkbenchError::DependencyCycle(clone_path(task_path)));
    }
    match get_task_at_path(config, task_path) {
        None => Ok(None),
        Some(task) => match &task.dependencies {
            None => Ok(Some(0)),
            Some(deps) => {
                proof {
                    assert(deps@.skip(0) =~= deps@);
                }
                count_list_fueled(config, deps, 0, fuel - 1)
            },
        },
    }
}

fn count_list_fueled(config: &Config, deps: &Vec<String>, from: usize, fuel: u64) -> (r: Result<
    Option<u64>,
    WorkbenchError,
>)
    requires
        from <= deps@.len(),
    ensures
        match r {
            Ok(Some(n)) => spec_count_list(*config, deps@.skip(from as int), fuel as nat) == Ok::<
                Option<nat>,
                CountError,
            >(Some(n as nat)),
            Ok(None) => spec_count_list(*config, deps@.skip(from as int), fuel as nat) == Ok::<
                Option<nat>,
                CountError,
            >(None),
            Err(e) => match spec_count_list(*config, deps@.skip(from as int), fuel as nat) {
                Err(CountError::MalformedDependency) => e
                    matches WorkbenchError::InvalidTaskPath(_),
                Err(CountError::BudgetExhausted) => e matches WorkbenchError::DependencyCycle(_),
                _ => false,
            },
        },
    decreases fuel, deps@.len() - from + 1,
{
    let ghost part = deps@.skip(from as int);
    if from == deps.len() {
        proof {
            assert(part =~= Seq::<String>::empty());
        }
        return Ok(Some(0));
    }
    proof {
        assert(part[0] == deps@[from as int]);
        assert(part.skip(1) =~= deps@.skip(from + 1));
    }
    let dep_path = match TaskPath::parse(deps[from].as_str()) {
        Ok(p) => p,
        Err(e) => {
            return Err(e);
        },
    };
    match count_deps_fueled(config, &dep_path, fuel) {
        Err(e) => Err(e),
        Ok(None) => Ok(None),
        Ok(Some(h)) => match count_list_fueled(config, deps, from + 1, fuel) {
            Err(e) => Err(e),
            Ok(None) => Ok(None),
            Ok(Some(t)) => Ok(Some(sat_add_u64(1, sat_add_u64(h, t)))),
        },
    }
}

/// Count the dependency edges reachable from a path, depth-first and with
/// multi-paths counted repeatedly; the count saturates at `u64::MAX`.
/// `Ok(None)` reports an unresolvable task, an error a malformed dependency
/// string or a dependency walk deeper than any acyclic graph here allows.
pub fn count_dependencies_of_path(config: &Config, task_path: &TaskPath) -> (r: Result<
    Option<u64>,
    WorkbenchError,
>)
    ensures
        match r {
            Ok(Some(n)) => spec_count_deps(*config, task_path@, spec_count_fuel(*config)) == Ok::<
                Option<nat>,
                CountError,
            >(Some(n as nat)),
            Ok(None) => spec_count_deps(*config, task_path@, spec_count_fuel(*config)) == Ok::<
                Option<nat>,
                CountError,
            >(None),
            Err(e) => match spec_count_deps(*config, task_path@, spec_count_fuel(*config)) {
                Err(CountError::MalformedDependency) => e
                    matches WorkbenchError::InvalidTaskPath(_),
                Err(CountError::BudgetExhausted) => e matches WorkbenchError::DependencyCycle(_),
                _ => false,
            },
        },
{
    let fuel = count_fuel(config);
    count_deps_fueled(config, task_path, fuel)
}

} // verus!
