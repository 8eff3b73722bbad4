//! The executor: walking the dependency graph and running tasks.
//!
//! A task runs after every one of its dependencies has completed
//! successfully.  Dependency failures are awaited, collected and aggregated
//! rather than short-circuited; a dependency that returns failure stops the
//! dependent task from beginning at all.  The observable behaviour is the
//! console event stream: the contracts here pin down that a run returns
//! true exactly when every process that ran exited zero (skips count as
//! success), and that a task begins only after its dependencies completed.

use vstd::prelude::*;
use vstd::string::*;

use crate::config::{config_wf, task_run_wf, Config, Task};
use crate::console::{Context, EventView, Log, Progress};
use crate::errors::WorkbenchError;
use crate::handlers::handle_execution;
use crate::query::{get_task_at_path, spec_task_at};
use crate::staleness::should_run_task;
use crate::task_path::{clone_path, spec_parse, task_path_valid, TaskPath, TaskPathView};

verus! {

/// The dependency strings of the task at `p`; empty when the task is
/// missing or lists none.
pub open spec fn deps_of(config: Config, p: TaskPathView) -> Seq<String> {
    match spec_task_at(config, p) {
        Some(t) => match t.dependencies {
            Some(d) => d@,
            None => Seq::empty(),
        },
        None => Seq::empty(),
    }
}

/// A successful completion of the task at `p`: skipped, or run with exit
/// code zero.
pub open spec fn is_success_completion(e: EventView, p: TaskPathView) -> bool {
    match e {
        EventView::ExecSkipped { path, .. } => path == p,
        EventView::ExecOutput { path, exit_code } => path == p && exit_code == 0,
        _ => false,
    }
}

/// Some successful completion of `p` lies in `es` at or after `lo`.
pub open spec fn completed_from(es: Seq<EventView>, lo: int, p: TaskPathView) -> bool {
    exists|j: int| lo <= j < es.len() && is_success_completion(#[trigger] es[j], p)
}

/// Every process result reported at or after `lo` exited zero.
pub open spec fn all_ok_from(es: Seq<EventView>, lo: int) -> bool {
    forall|j: int|
        lo <= j < es.len() ==> match #[trigger] es[j] {
            EventView::ExecOutput { exit_code, .. } => exit_code == 0,
            _ => true,
        }
}

/// Some process result reported at or after `lo` exited non-zero.
pub open spec fn failure_from(es: Seq<EventView>, lo: int) -> bool {
    exists|j: int|
        lo <= j < es.len() && match #[trigger] es[j] {
            EventView::ExecOutput { exit_code, .. } => exit_code != 0,
            _ => false,
        }
}

/// A reported failure refutes an all-successful stream.
pub proof fn lemma_failure_not_all_ok(es: Seq<EventView>, lo: int)
    requires
        failure_from(es, lo),
    ensures
        !all_ok_from(es, lo),
{
}

/// The event at `i` may be a task beginning only when the configuration
/// resolves the task and each of its dependencies parses and has already
/// completed successfully, earlier in the stream.
pub open spec fn begin_respects_deps(es: Seq<EventView>, config: Config, i: int) -> bool {
    match es[i] {
        EventView::TaskBegun { path } => {
            &&& spec_task_at(config, path) is Some
            &&& forall|k: int|
                0 <= k < deps_of(config, path).len() ==> task_path_valid(
                    #[trigger] deps_of(config, path)[k]@,
                ) && completed_before(es, i, spec_parse(deps_of(config, path)[k]@))
        },
        _ => true,
    }
}

/// Some successful completion of `p` lies strictly before `i`.
pub open spec fn completed_before(es: Seq<EventView>, i: int, p: TaskPathView) -> bool {
    exists|j: int| 0 <= j < i && is_success_completion(#[trigger] es[j], p)
}

/// Dependency ordering over a whole stream: every task that begins had all
/// its dependencies completed successfully first.
pub open spec fn deps_ordered(es: Seq<EventView>, config: Config) -> bool {
    forall|i: int| 0 <= i < es.len() ==> #[trigger] begin_respects_deps(es, config, i)
}

/// An empty stream trivially satisfies the dependency ordering.
pub proof fn lemma_deps_ordered_empty(config: Config)
    ensures
        deps_ordered(Seq::empty(), config),
{
}

proof fn lemma_respects_prefix(es1: Seq<EventView>, es2: Seq<EventView>, config: Config, i: int)
    requires
        0 <= i < es1.len(),
        es1.is_prefix_of(es2),
        begin_respects_deps(es1, config, i),
    ensures
        begin_respects_deps(es2, config, i),
{
    assert(es2[i] == es1[i]);
    match es2[i] {
        EventView::TaskBegun { path } => {
            assert forall|k: int| 0 <= k < deps_of(config, path).len() implies task_path_valid(
                #[trigger] deps_of(config, path)[k]@,
            ) && completed_before(es2, i, spec_parse(deps_of(config, path)[k]@)) by {
                let p = spec_parse(deps_of(config, path)[k]@);
                let j = choose|j: int| 0 <= j < i && is_success_completion(#[trigger] es1[j], p);
                assert(es2[j] == es1[j]);
            }
        },
        _ => {},
    }
}

proof fn lemma_deps_ordered_push(es: Seq<EventView>, config: Config, e: EventView)
    requires
        deps_ordered(es, config),
        begin_respects_deps(es.push(e), config, es.len() as int),
    ensures
        deps_ordered(es.push(e), config),
{
    let es2 = es.push(e);
    assert(es.is_prefix_of(es2)) by {
        assert(es =~= es2.subrange(0, es.len() as int));
    }
    assert forall|i: int| 0 <= i < es2.len() implies #[trigger] begin_respects_deps(
        es2,
        config,
        i,
    ) by {
        if i < es.len() {
            lemma_respects_prefix(es, es2, config, i);
        }
    }
}

proof fn lemma_prefix_push(es: Seq<EventView>, e: EventView)
    ensures
        es.is_prefix_of(es.push(e)),
{
    assert(es =~= es.push(e).subrange(0, es.len() as int));
}

proof fn lemma_prefix_trans(a: Seq<EventView>, b: Seq<EventView>, c: Seq<EventView>)
    requires
        a.is_prefix_of(b),
        b.is_prefix_of(c),
    ensures
        a.is_prefix_of(c),
{
    assert(a =~= c.subrange(0, a.len() as int));
}

proof fn lemma_completed_mono(es1: Seq<EventView>, es2: Seq<EventView>, lo: int, p: TaskPathView)
    requires
        es1.is_prefix_of(es2),
        completed_from(es1, lo, p),
        0 <= lo,
    ensures
        completed_from(es2, lo, p),
{
    let j = choose|j: int| lo <= j < es1.len() && is_success_completion(#[trigger] es1[j], p);
    assert(es2[j] == es1[j]);
}

proof fn lemma_failure_mono(es1: Seq<EventView>, es2: Seq<EventView>, lo: int)
    requires
        es1.is_prefix_of(es2),
        failure_from(es1, lo),
        0 <= lo,
    ensures
        failure_from(es2, lo),
{
    let j = choose|j: int|
        lo <= j < es1.len() && match #[trigger] es1[j] {
            EventView::ExecOutput { exit_code, .. } => exit_code != 0,
            _ => false,
        };
    assert(es2[j] == es1[j]);
}

proof fn lemma_all_ok_join(es1: Seq<EventView>, es2: Seq<EventView>, lo: int)
    requires
        es1.is_prefix_of(es2),
        0 <= lo <= es1.len(),
        all_ok_from(es1, lo),
        all_ok_from(es2, es1.len() as int),
    ensures
        all_ok_from(es2, lo),
{
    assert forall|j: int| lo <= j < es2.len() implies match #[trigger] es2[j] {
        EventView::ExecOutput { exit_code, .. } => exit_code == 0,
        _ => true,
    } by {
        if j < es1.len() {
            assert(es2[j] == es1[j]);
        }
    }
}

/// The event settles the task at `p`: skipped, or run with any exit code.
pub open spec fn settles(e: EventView, p: TaskPathView) -> bool {
    match e {
        EventView::ExecSkipped { path, .. } => path == p,
        EventView::ExecOutput { path, .. } => path == p,
        _ => false,
    }
}

/// Per-task console output is contiguous at or after `lo`: every task that
/// begins is followed immediately by its own outcome and by one completion
/// tick, with nothing in between.
pub open spec fn blocks_from(es: Seq<EventView>, lo: int) -> bool {
    forall|i: int|
        lo <= i < es.len() ==> match #[trigger] es[i] {
            EventView::TaskBegun { path } => i + 2 < es.len() && settles(es[i + 1], path)
                && es[i + 2] == EventView::TaskCompleted,
            _ => true,
        }
}

/// No plain message stands at or after `lo`: the executor reports only task
/// events.
pub open spec fn no_messages_from(es: Seq<EventView>, lo: int) -> bool {
    forall|i: int| lo <= i < es.len() ==> !((#[trigger] es[i]) is Message)
}

proof fn lemma_blocks_join(es1: Seq<EventView>, es2: Seq<EventView>, lo: int)
    requires
        es1.is_prefix_of(es2),
        0 <= lo <= es1.len(),
        blocks_from(es1, lo),
        blocks_from(es2, es1.len() as int),
    ensures
        blocks_from(es2, lo),
{
    assert forall|i: int| lo <= i < es2.len() implies match #[trigger] es2[i] {
        EventView::TaskBegun { path } => i + 2 < es2.len() && settles(es2[i + 1], path) && es2[i
            + 2] == EventView::TaskCompleted,
        _ => true,
    } by {
        if i < es1.len() {
            assert(es2[i] == es1[i]);
            match es1[i] {
                EventView::TaskBegun { path } => {
                    assert(es2[i + 1] == es1[i + 1]);
                    assert(es2[i + 2] == es1[i + 2]);
                },
                _ => {},
            }
        }
    }
}

proof fn lemma_no_messages_join(es1: Seq<EventView>, es2: Seq<EventView>, lo: int)
    requires
        es1.is_prefix_of(es2),
        0 <= lo <= es1.len(),
        no_messages_from(es1, lo),
        no_messages_from(es2, es1.len() as int),
    ensures
        no_messages_from(es2, lo),
{
    assert forall|i: int| lo <= i < es2.len() implies !((#[trigger] es2[i]) is Message) by {
        if i < es1.len() {
            assert(es2[i] == es1[i]);
        }
    }
}

proof fn lemma_no_messages_push(es: Seq<EventView>, lo: int, e: EventView)
    requires
        no_messages_from(es, lo),
        0 <= lo <= es.len(),
        !(e is Message),
    ensures
        no_messages_from(es.push(e), lo),
{
    let es2 = es.push(e);
    assert forall|i: int| lo <= i < es2.len() implies !((#[trigger] es2[i]) is Message) by {
        if i < es.len() {
            assert(es2[i] == es[i]);
        }
    }
}

/// The three events one task appends once its dependencies are done form a
/// contiguous, message-free block.
proof fn lemma_tail_block(
    es_deps: Seq<EventView>,
    begun: TaskPathView,
    outcome: EventView,
    es_done: Seq<EventView>,
)
    requires
        es_done == es_deps.push(EventView::TaskBegun { path: begun }).push(outcome).push(
            EventView::TaskCompleted,
        ),
        settles(outcome, begun),
        !(outcome is Message),
    ensures
        blocks_from(es_done, es_deps.len() as int),
        no_messages_from(es_done, es_deps.len() as int),
{
    assert(es_done.len() == es_deps.len() + 3);
    assert(es_done[es_deps.len() as int] == EventView::TaskBegun { path: begun });
    assert(es_done[es_deps.len() as int + 1] == outcome);
    assert(es_done[es_deps.len() as int + 2] == EventView::TaskCompleted);
    assert forall|i: int| es_deps.len() <= i < es_done.len() implies match #[trigger] es_done[i] {
        EventView::TaskBegun { path } => i + 2 < es_done.len() && settles(es_done[i + 1], path)
            && es_done[i + 2] == EventView::TaskCompleted,
        _ => true,
    } by {
        if i == es_deps.len() {
        } else if i == es_deps.len() + 1 {
        } else {
        }
    }
}

/// Every task reachable from `p` through dependency edges, to depth
/// `fuel`, has completed successfully in `es` at or after `lo`.
pub open spec fn covers(es: Seq<EventView>, lo: int, config: Config, p: TaskPathView, fuel: nat) -> bool
    decreases fuel,
{
    &&& completed_from(es, lo, p)
    &&& fuel > 0 ==> forall|k: int|
        0 <= k < deps_of(config, p).len() ==> covers(
            es,
            lo,
            config,
            spec_parse(#[trigger] deps_of(config, p)[k]@),
            (fuel - 1) as nat,
        )
}

/// Coverage persists when the stream grows and when the window widens.
proof fn lemma_covers_mono(
    es1: Seq<EventView>,
    es2: Seq<EventView>,
    lo1: int,
    lo2: int,
    config: Config,
    p: TaskPathView,
    fuel: nat,
)
    requires
        es1.is_prefix_of(es2),
        0 <= lo2 <= lo1,
        covers(es1, lo1, config, p, fuel),
    ensures
        covers(es2, lo2, config, p, fuel),
    decreases fuel,
{
    let j = choose|j: int| lo1 <= j < es1.len() && is_success_completion(#[trigger] es1[j], p);
    assert(es2[j] == es1[j]);
    if fuel > 0 {
        assert forall|k: int| 0 <= k < deps_of(config, p).len() implies covers(
            es2,
            lo2,
            config,
            spec_parse(#[trigger] deps_of(config, p)[k]@),
            (fuel - 1) as nat,
        ) by {
            lemma_covers_mono(
                es1,
                es2,
                lo1,
                lo2,
                config,
                spec_parse(deps_of(config, p)[k]@),
                (fuel - 1) as nat,
            );
        }
    }
}

/// The task the configuration resolves for a path has a spawnable command.
proof fn lemma_config_wf_task(config: Config, p: TaskPathView)
    requires
        config_wf(config),
        spec_task_at(config, p) is Some,
    ensures
        task_run_wf(spec_task_at(config, p).unwrap()),
{
    let t = spec_task_at(config, p).unwrap();
    match p.namespace {
        Some(ns) => {
            let nss = config.namespaces.unwrap();
            crate::config::lemma_assoc_get_is_entry(nss@, ns);
            let n = crate::config::assoc_get(nss@, ns).unwrap();
            let i = choose|i: int| 0 <= i < nss@.len() && #[trigger] nss@[i].1 == n;
            crate::config::lemma_assoc_get_is_entry(n.tasks@, p.name);
            let j = choose|j: int| 0 <= j < n.tasks@.len() && #[trigger] n.tasks@[j].1 == t;
            assert(task_run_wf(nss@[i].1.tasks@[j].1));
        },
        None => {
            let ts = config.tasks.unwrap();
            crate::config::lemma_assoc_get_is_entry(ts@, p.name);
            let j = choose|j: int| 0 <= j < ts@.len() && #[trigger] ts@[j].1 == t;
            assert(task_run_wf(ts@[j].1));
        },
    }
}

/// Run one task: first its dependencies, then — unless the staleness oracle
/// skips it — its command.
fn exec_task<C: Log + Progress>(
    config: &Config,
    console: &mut Context<C>,
    task_path: &TaskPath,
    fuel: u64,
) -> (r: Result<bool, WorkbenchError>)
    requires
        config_wf(*config),
    ensures
        old(console).stream().is_prefix_of(final(console).stream()),
        deps_ordered(old(console).stream(), *config) ==> deps_ordered(
            final(console).stream(),
            *config,
        ),
        r == Ok::<bool, WorkbenchError>(true) ==> all_ok_from(
            final(console).stream(),
            old(console).stream().len() as int,
        ) && completed_from(
            final(console).stream(),
            old(console).stream().len() as int,
            task_path@,
        ) && spec_task_at(*config, task_path@) is Some && covers(
            final(console).stream(),
            old(console).stream().len() as int,
            *config,
            task_path@,
            fuel as nat,
        ),
        r == Ok::<bool, WorkbenchError>(false) ==> failure_from(
            final(console).stream(),
            old(console).stream().len() as int,
        ),
        fuel > 0 && spec_task_at(*config, task_path@) is None ==> final(console).stream() == old(
            console,
        ).stream() && (match r {
            Err(WorkbenchError::TaskNotFound(p)) => p == *task_path,
            _ => false,
        }),
        r is Ok ==> spec_task_at(*config, task_path@) is Some,
        r is Ok ==> blocks_from(final(console).stream(), old(console).stream().len() as int),
        no_messages_from(final(console).stream(), old(console).stream().len() as int),
    decreases fuel, 0int,
{
    let ghost pre = console.stream();
    if fuel == 0 {
        return Err(WorkbenchError::DependencyCycle(clone_path(task_path)));
    }
    let task = match get_task_at_path(config, task_path) {
        Some(t) => t,
        None => {
            return Err(WorkbenchError::TaskNotFound(clone_path(task_path)));
        },
    };
    let deps_succeeded = match exec_all_dependencies(config, console, task, fuel - 1) {
        Ok(b) => b,
        Err(e) => {
            return Err(e);
        },
    };
    if !deps_succeeded {
        return Ok(false);
    }
    let ghost es_deps = console.stream();
    console.begin_task(task_path, task);
    proof {
        let es2 = console.stream();
        lemma_prefix_push(es_deps, EventView::TaskBegun { path: task_path@ });
        lemma_prefix_trans(pre, es_deps, es2);
        assert(begin_respects_deps(es2, *config, es_deps.len() as int)) by {
            assert(deps_of(*config, task_path@) == (match task.dependencies {
                Some(d) => d@,
                None => Seq::<String>::empty(),
            }));
            assert forall|k: int| 0 <= k < deps_of(*config, task_path@).len() implies
                task_path_valid(#[trigger] deps_of(*config, task_path@)[k]@) && completed_before(
                es2,
                es_deps.len() as int,
                spec_parse(deps_of(*config, task_path@)[k]@),
            ) by {
                let p = spec_parse(deps_of(*config, task_path@)[k]@);
                let j = choose|j: int|
                    pre.len() <= j < es_deps.len() && is_success_completion(
                        #[trigger] es_deps[j],
                        p,
                    );
                assert(es2[j] == es_deps[j]);
            }
        }
        if deps_ordered(pre, *config) {
            lemma_deps_ordered_push(es_deps, *config, EventView::TaskBegun { path: task_path@ });
        }
        lemma_no_messages_push(es_deps, pre.len() as int, EventView::TaskBegun { path: task_path@ });
    }
    let reason = match should_run_task(task) {
        Ok(r0) => r0,
        Err(e) => {
            return Err(e);
        },
    };
    let ghost es_begun = console.stream();
    match reason {
        Some(reason_text) => {
            console.log_exec_skipped(task_path, reason_text.as_str());
            let ghost es_skip = console.stream();
            console.complete_task();
            proof {
                let es_done = console.stream();
                let skip_event = EventView::ExecSkipped {
                    path: task_path@,
                    reason: reason_text@,
                };
                lemma_prefix_push(es_begun, skip_event);
                lemma_prefix_push(es_skip, EventView::TaskCompleted);
                lemma_prefix_trans(es_begun, es_skip, es_done);
                lemma_prefix_trans(pre, es_begun, es_done);
                if deps_ordered(pre, *config) {
                    lemma_deps_ordered_push(es_begun, *config, skip_event);
                    lemma_deps_ordered_push(es_skip, *config, EventView::TaskCompleted);
                }
                assert(es_done[es_begun.len() as int] == skip_event);
                assert(is_success_completion(skip_event, task_path@));
                assert(all_ok_from(es_done, pre.len() as int)) by {
                    lemma_all_ok_join(es_begun, es_done, pre.len() as int);
                }
                assert(completed_from(es_done, pre.len() as int, task_path@));
                assert forall|k: int| 0 <= k < deps_of(*config, task_path@).len() implies covers(
                    es_done,
                    pre.len() as int,
                    *config,
                    spec_parse(#[trigger] deps_of(*config, task_path@)[k]@),
                    (fuel - 1) as nat,
                ) by {
                    lemma_covers_mono(
                        es_deps,
                        es_done,
                        pre.len() as int,
                        pre.len() as int,
                        *config,
                        spec_parse(deps_of(*config, task_path@)[k]@),
                        (fuel - 1) as nat,
                    );
                }
                assert(covers(es_done, pre.len() as int, *config, task_path@, fuel as nat));
                lemma_tail_block(
                    es_deps,
                    task_path@,
                    skip_event,
                    es_done,
                );
                lemma_blocks_join(es_deps, es_done, pre.len() as int);
                lemma_no_messages_join(es_deps, es_done, pre.len() as int);
            }
            Ok(true)
        },
        None => {
            proof {
                lemma_config_wf_task(*config, task_path@);
            }
            let output = match handle_execution(task_path, task) {
                Ok(o) => o,
                Err(e) => {
                    return Err(e);
                },
            };
            let success = output.exit_code == 0;
            console.log_exec_output(task_path, task, &output);
            let ghost es_out = console.stream();
            console.complete_task();
            proof {
                let es_done = console.stream();
                let out_event = EventView::ExecOutput {
                    path: task_path@,
                    exit_code: output.exit_code,
                };
                lemma_prefix_push(es_begun, out_event);
                lemma_prefix_push(es_out, EventView::TaskCompleted);
                lemma_prefix_trans(es_begun, es_out, es_done);
                lemma_prefix_trans(pre, es_begun, es_done);
                if deps_ordered(pre, *config) {
                    lemma_deps_ordered_push(es_begun, *config, out_event);
                    lemma_deps_ordered_push(es_out, *config, EventView::TaskCompleted);
                }
                assert(es_done[es_begun.len() as int] == out_event);
                if success {
                    assert(is_success_completion(out_event, task_path@));
                    assert(all_ok_from(es_done, pre.len() as int)) by {
                        lemma_all_ok_join(es_begun, es_done, pre.len() as int);
                    }
                    assert(completed_from(es_done, pre.len() as int, task_path@));
                    assert forall|k: int|
                        0 <= k < deps_of(*config, task_path@).len() implies covers(
                        es_done,
                        pre.len() as int,
                        *config,
                        spec_parse(#[trigger] deps_of(*config, task_path@)[k]@),
                        (fuel - 1) as nat,
                    ) by {
                        lemma_covers_mono(
                            es_deps,
                            es_done,
                            pre.len() as int,
                            pre.len() as int,
                            *config,
                            spec_parse(deps_of(*config, task_path@)[k]@),
                            (fuel - 1) as nat,
                        );
                    }
                    assert(covers(es_done, pre.len() as int, *config, task_path@, fuel as nat));
                } else {
                    assert(failure_from(es_done, pre.len() as int));
                }
                lemma_tail_block(
                    es_deps,
                    task_path@,
                    out_event,
                    es_done,
                );
                lemma_blocks_join(es_deps, es_done, pre.len() as int);
                lemma_no_messages_join(es_deps, es_done, pre.len() as int);
            }
            Ok(success)
        },
    }
}

/// Run every dependency of a task, in order, without short-circuiting:
/// failures and errors are collected across the whole list, then errors
/// aggregate and any failure makes the task fail without beginning.
fn exec_all_dependencies<C: Log + Progress>(
    config: &Config,
    console: &mut Context<C>,
    task: &Task,
    fuel: u64,
) -> (r: Result<bool, WorkbenchError>)
    requires
        config_wf(*config),
    ensures
        old(console).stream().is_prefix_of(final(console).stream()),
        deps_ordered(old(console).stream(), *config) ==> deps_ordered(
            final(console).stream(),
            *config,
        ),
        r == Ok::<bool, WorkbenchError>(true) ==> all_ok_from(
            final(console).stream(),
            old(console).stream().len() as int,
        ) && (task.dependencies matches Some(ds) ==> forall|k: int|
            0 <= k < ds@.len() ==> task_path_valid(#[trigger] ds@[k]@) && completed_from(
                final(console).stream(),
                old(console).stream().len() as int,
                spec_parse(ds@[k]@),
            ) && covers(
                final(console).stream(),
                old(console).stream().len() as int,
                *config,
                spec_parse(ds@[k]@),
                fuel as nat,
            )),
        r == Ok::<bool, WorkbenchError>(false) ==> failure_from(
            final(console).stream(),
            old(console).stream().len() as int,
        ),
        (match task.dependencies {
            Some(d) => d@.len() == 0,
            None => true,
        }) ==> r == Ok::<bool, WorkbenchError>(true) && final(console).stream() == old(
            console,
        ).stream(),
        (match r {
            Err(WorkbenchError::Aggregate(v)) => v@.len() > 0,
            Err(_) => false,
            Ok(_) => true,
        }),
        r is Ok ==> blocks_from(final(console).stream(), old(console).stream().len() as int),
        no_messages_from(final(console).stream(), old(console).stream().len() as int),
    decreases fuel, 2int,
{
    let ghost pre = console.stream();
    let deps = match &task.dependencies {
        Some(d) => d,
        None => {
            return Ok(true);
        },
    };
    if deps.len() == 0 {
        return Ok(true);
    }
    let mut any_failure = false;
    let mut errors: Vec<WorkbenchError> = Vec::new();
    let mut i: usize = 0;
    while i < deps.len()
        invariant
            0 <= i <= deps@.len(),
            config_wf(*config),
            pre.is_prefix_of(console.stream()),
            pre.len() <= console.stream().len(),
            deps_ordered(pre, *config) ==> deps_ordered(console.stream(), *config),
            !any_failure && errors@.len() == 0 ==> all_ok_from(console.stream(), pre.len() as int)
                && forall|k: int|
                0 <= k < i ==> task_path_valid(#[trigger] deps@[k]@) && completed_from(
                    console.stream(),
                    pre.len() as int,
                    spec_parse(deps@[k]@),
                ) && covers(
                    console.stream(),
                    pre.len() as int,
                    *config,
                    spec_parse(deps@[k]@),
                    fuel as nat,
                ),
            any_failure ==> failure_from(console.stream(), pre.len() as int),
            errors@.len() == 0 ==> blocks_from(console.stream(), pre.len() as int),
            no_messages_from(console.stream(), pre.len() as int),
        decreases deps@.len() - i,
    {
        let ghost es_before = console.stream();
        match exec_dependency(config, console, &deps[i], fuel) {
            Ok(true) => {
                proof {
                    let es_now = console.stream();
                    lemma_prefix_trans(pre, es_before, es_now);
                    if !any_failure && errors@.len() == 0 {
                        lemma_all_ok_join(es_before, es_now, pre.len() as int);
                        assert(es_now.is_prefix_of(es_now)) by {
                            assert(es_now =~= es_now.subrange(0, es_now.len() as int));
                        }
                        assert forall|k: int| 0 <= k < i + 1 implies task_path_valid(
                            #[trigger] deps@[k]@,
                        ) && completed_from(es_now, pre.len() as int, spec_parse(deps@[k]@))
                            && covers(
                            es_now,
                            pre.len() as int,
                            *config,
                            spec_parse(deps@[k]@),
                            fuel as nat,
                        ) by {
                            if k < i {
                                lemma_completed_mono(
                                    es_before,
                                    es_now,
                                    pre.len() as int,
                                    spec_parse(deps@[k]@),
                                );
                                lemma_covers_mono(
                                    es_before,
                                    es_now,
                                    pre.len() as int,
                                    pre.len() as int,
                                    *config,
                                    spec_parse(deps@[k]@),
                                    fuel as nat,
                                );
                            } else {
                                let p = spec_parse(deps@[k]@);
                                let j = choose|j: int|
                                    es_before.len() <= j < es_now.len() && is_success_completion(
                                        #[trigger] es_now[j],
                                        p,
                                    );
                                lemma_covers_mono(
                                    es_now,
                                    es_now,
                                    es_before.len() as int,
                                    pre.len() as int,
                                    *config,
                                    p,
                                    fuel as nat,
                                );
                            }
                        }
                    }
                    if any_failure {
                        lemma_failure_mono(es_before, es_now, pre.len() as int);
                    }
                    if errors@.len() == 0 {
                        lemma_blocks_join(es_before, es_now, pre.len() as int);
                    }
                    lemma_no_messages_join(es_before, es_now, pre.len() as int);
                }
            },
            Ok(false) => {
                proof {
                    let es_now = console.stream();
                    lemma_prefix_trans(pre, es_before, es_now);
                    if errors@.len() == 0 {
                        lemma_blocks_join(es_before, es_now, pre.len() as int);
                    }
                    lemma_no_messages_join(es_before, es_now, pre.len() as int);
                }
                any_failure = true;
            },
            Err(e) => {
                proof {
                    let es_now = console.stream();
                    lemma_prefix_trans(pre, es_before, es_now);
                    if any_failure {
                        lemma_failure_mono(es_before, es_now, pre.len() as int);
                    }
                    lemma_no_messages_join(es_before, es_now, pre.len() as int);
                }
                errors.push(e);
            },
        }
        i += 1;
    }
    if errors.len() > 0 {
        return Err(WorkbenchError::Aggregate(errors));
    }
    if any_failure {
        return Ok(false);
    }
    Ok(true)
}

/// Parse one dependency string and run the task it names.
fn exec_dependency<C: Log + Progress>(
    config: &Config,
    console: &mut Context<C>,
    dependency: &String,
    fuel: u64,
) -> (r: Result<bool, WorkbenchError>)
    requires
        config_wf(*config),
    ensures
        old(console).stream().is_prefix_of(final(console).stream()),
        deps_ordered(old(console).stream(), *config) ==> deps_ordered(
            final(console).stream(),
            *config,
        ),
        r == Ok::<bool, WorkbenchError>(true) ==> task_path_valid(dependency@) && all_ok_from(
            final(console).stream(),
            old(console).stream().len() as int,
        ) && completed_from(
            final(console).stream(),
            old(console).stream().len() as int,
            spec_parse(dependency@),
        ) && covers(
            final(console).stream(),
            old(console).stream().len() as int,
            *config,
            spec_parse(dependency@),
            fuel as nat,
        ),
        r == Ok::<bool, WorkbenchError>(false) ==> failure_from(
            final(console).stream(),
            old(console).stream().len() as int,
        ),
        r is Ok ==> blocks_from(final(console).stream(), old(console).stream().len() as int),
        no_messages_from(final(console).stream(), old(console).stream().len() as int),
    decreases fuel, 1int,
{
    let dep_path = match TaskPath::parse(dependency.as_str()) {
        Ok(p) => p,
        Err(e) => {
            return Err(e);
        },
    };
    exec_task(config, console, &dep_path, fuel)
}

/// Run the target task after its transitive dependencies, and clear the
/// progress display before returning.  `Ok(true)` exactly when, over the
/// events this run appended, every process that ran exited zero — skipped
/// tasks count as success — and the target itself completed; `Ok(false)`
/// reports some process that exited non-zero.  The stream keeps every
/// dependency completed before its dependent begins.
pub fn exec<C: Log + Progress>(
    config: &Config,
    console: &mut Context<C>,
    target_task_path: &TaskPath,
) -> (r: Result<bool, WorkbenchError>)
    requires
        config_wf(*config),
    ensures
        old(console).stream().is_prefix_of(final(console).stream()),
        deps_ordered(old(console).stream(), *config) ==> deps_ordered(
            final(console).stream(),
            *config,
        ),
        r == Ok::<bool, WorkbenchError>(true) ==> all_ok_from(
            final(console).stream(),
            old(console).stream().len() as int,
        ) && completed_from(
            final(console).stream(),
            old(console).stream().len() as int,
            target_task_path@,
        ) && covers(
            final(console).stream(),
            old(console).stream().len() as int,
            *config,
            target_task_path@,
            crate::query::spec_count_fuel(*config),
        ),
        r == Ok::<bool, WorkbenchError>(false) ==> failure_from(
            final(console).stream(),
            old(console).stream().len() as int,
        ),
        spec_task_at(*config, target_task_path@) is None ==> final(console).stream() == old(
            console,
        ).stream() && (match r {
            Err(WorkbenchError::TaskNotFound(p)) => p == *target_task_path,
            _ => false,
        }),
        r is Ok ==> spec_task_at(*config, target_task_path@) is Some,
        r is Ok ==> blocks_from(final(console).stream(), old(console).stream().len() as int),
        no_messages_from(final(console).stream(), old(console).stream().len() as int),
{
    let fuel = crate::query::count_fuel(config);
    proof {
        assert(crate::query::spec_count_fuel(*config) >= 1);
    }
    let result = exec_task(config, console, target_task_path, fuel);
    let cleared = console.clear();
    match result {
        Ok(succeeded) => match cleared {
            Ok(()) => Ok(succeeded),
            Err(e) => Err(e),
        },
        // A run that already failed is reported over a clear failure.
        Err(e) => Err(e),
    }
}

} // verus!
