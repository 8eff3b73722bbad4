//! The staleness oracle: deciding whether a task's outputs are up to date
//! with respect to its inputs, by modification time.

use vstd::prelude::*;
use vstd::string::*;

use crate::config::{Files, Task};
use crate::errors::WorkbenchError;
use crate::files::{pattern_ok, resolve_paths, spec_exclude_patterns, spec_include_patterns};

verus! {

/// The greatest modification time in the list, zero when it is empty.
pub open spec fn max_time(ts: Seq<u128>) -> u128
    decreases ts.len(),
{
    if ts.len() == 0 {
        0
    } else {
        let rest = max_time(ts.skip(1));
        if ts[0] >= rest {
            ts[0]
        } else {
            rest
        }
    }
}

/// The staleness decision over gathered modification times: the task must
/// run when it has no resolved inputs, no resolved outputs, a missing
/// output, or an output strictly older than the newest input.  Equal times
/// count as up to date.
pub open spec fn spec_should_run(ins: Seq<u128>, outs: Seq<Option<u128>>) -> bool {
    ||| ins.len() == 0
    ||| outs.len() == 0
    ||| exists|i: int|
        0 <= i < outs.len() && (#[trigger] outs[i] is None || outs[i].unwrap() < max_time(ins))
}

/// A task is cached exactly when both resolved sets are non-empty, every
/// output exists, and every output is at least as new as the newest input.
pub proof fn lemma_cached_iff_fresh(ins: Seq<u128>, outs: Seq<Option<u128>>)
    requires
        ins.len() > 0,
        outs.len() > 0,
    ensures
        !spec_should_run(ins, outs) <==> forall|i: int|
            0 <= i < outs.len() ==> #[trigger] outs[i] is Some && outs[i].unwrap() >= max_time(
                ins,
            ),
{
}

fn max_time_exec(ts: &Vec<u128>) -> (r: u128)
    ensures
        r == max_time(ts@),
{
    let mut acc: u128 = 0;
    let mut i: usize = ts.len();
    proof {
        assert(ts@.skip(i as int) =~= Seq::<u128>::empty());
    }
    while i > 0
        invariant
            0 <= i <= ts@.len(),
            acc == max_time(ts@.skip(i as int)),
        decreases i,
    {
        i -= 1;
        proof {
            assert(ts@.skip(i as int)[0] == ts@[i as int]);
            assert(ts@.skip(i as int).skip(1) =~= ts@.skip(i + 1));
        }
        if ts[i] >= acc {
            acc = ts[i];
        }
    }
    proof {
        assert(ts@.skip(0) =~= ts@);
    }
    acc
}

/// Decide staleness from gathered modification times; `None` marks a
/// missing output.
pub fn should_run_from_mtimes(input_mtimes: &Vec<u128>, output_mtimes: &Vec<Option<u128>>) -> (r:
    bool)
    ensures
        r == spec_should_run(input_mtimes@, output_mtimes@),
{
    if input_mtimes.len() == 0 {
        return true;
    }
    if output_mtimes.len() == 0 {
        return true;
    }
    let newest_input = max_time_exec(input_mtimes);
    let mut i: usize = 0;
    while i < output_mtimes.len()
        invariant
            0 <= i <= output_mtimes@.len(),
            input_mtimes@.len() > 0,
            output_mtimes@.len() > 0,
            newest_input == max_time(input_mtimes@),
            forall|j: int|
                0 <= j < i ==> #[trigger] output_mtimes@[j] is Some && output_mtimes@[j].unwrap()
                    >= max_time(input_mtimes@),
        decreases output_mtimes@.len() - i,
    {
        match output_mtimes[i] {
            None => {
                return true;
            },
            Some(t) => {
                if t < newest_input {
                    return true;
                }
            },
        }
        i += 1;
    }
    false
}

/// Relies on `fs_err::metadata` and `Metadata::modified`: reads a file's
/// modification time as nanoseconds since the Unix epoch (clamped to zero
/// for earlier times).  `Ok(None)` reports a missing file.  What comes back
/// depends on the filesystem, so only the error class is promised.
#[verifier::external_body]
fn read_mtime(path: &String) -> (r: Result<Option<u128>, WorkbenchError>)
    ensures
        r matches Err(e) ==> e matches WorkbenchError::Io(_),
{
    match fs_err::metadata(path.as_str()) {
        Err(e) if e.kind() == std::io::ErrorKind::NotFound => Ok(None),
        Err(e) => Err(WorkbenchError::Io(e.to_string())),
        Ok(m) => match m.modified() {
            Ok(t) => Ok(
                Some(t.duration_since(std::time::UNIX_EPOCH).map(|d| d.as_nanos()).unwrap_or(0)),
            ),
            Err(e) => Err(WorkbenchError::Io(e.to_string())),
        },
    }
}

/// Read the modification time of every path, in order; a missing file is
/// kept as `None`.
fn read_all_mtimes(paths: &Vec<String>) -> (r: Result<Vec<Option<u128>>, WorkbenchError>)
    ensures
        r matches Ok(v) ==> v@.len() == paths@.len(),
        r matches Err(e) ==> e matches WorkbenchError::Io(_),
{
    let mut times: Vec<Option<u128>> = Vec::new();
    let mut i: usize = 0;
    while i < paths.len()
        invariant
            0 <= i <= paths@.len(),
            times@.len() == i,
        decreases paths@.len() - i,
    {
        match read_mtime(&paths[i]) {
            Ok(t) => times.push(t),
            Err(e) => {
                return Err(e);
            },
        }
        i += 1;
    }
    Ok(times)
}

/// Require every read time to be present: inputs must exist, so a missing
/// one is an I/O failure naming its path, exactly when some entry is `None`.
pub fn require_all_present(times: Vec<Option<u128>>, paths: &Vec<String>) -> (r: Result<
    Vec<u128>,
    WorkbenchError,
>)
    requires
        times@.len() == paths@.len(),
    ensures
        r is Ok <==> (forall|i: int| 0 <= i < times@.len() ==> (#[trigger] times@[i]) is Some),
        r matches Ok(v) ==> v@.len() == times@.len() && forall|i: int|
            0 <= i < v@.len() ==> v@[i] == times@[i].unwrap(),
        r matches Err(e) ==> e matches WorkbenchError::Io(_),
{
    let mut present: Vec<u128> = Vec::new();
    let mut i: usize = 0;
    while i < times.len()
        invariant
            0 <= i <= times@.len(),
            times@.len() == paths@.len(),
            present@.len() == i,
            forall|j: int| 0 <= j < i ==> (#[trigger] times@[j]) is Some,
            forall|j: int| 0 <= j < i ==> present@[j] == times@[j].unwrap(),
        decreases times@.len() - i,
    {
        match times[i] {
            Some(t) => present.push(t),
            None => {
                let mut message = String::from_str("no such file or directory: ");
                message.append(paths[i].as_str());
                return Err(WorkbenchError::Io(message));
            },
        }
        i += 1;
    }
    Ok(present)
}

/// Whether a task with the given input and output file sets must run: the
/// file sets are resolved, and unless either resolves to no paths (the task
/// must run) the modification times are compared as `spec_should_run` says.
/// An input set with no inclusion patterns (and compiling exclusion
/// patterns) touches no file and always answers "run".  The rest depends on
/// the filesystem, so only the error classes are promised here; the
/// comparison itself is pinned by `should_run_from_mtimes`.
pub fn should_run_tasks_files(inputs: &Files, outputs: &Files) -> (r: Result<
    bool,
    WorkbenchError,
>)
    ensures
        spec_include_patterns(*inputs).len() == 0 && (forall|k: int|
            0 <= k < spec_exclude_patterns(*inputs).len() ==> pattern_ok(
                #[trigger] spec_exclude_patterns(*inputs)[k],
            )) ==> r == Ok::<bool, WorkbenchError>(true),
        r matches Err(e) ==> e matches WorkbenchError::Io(_) || e
            matches WorkbenchError::GlobPattern(_) || e matches WorkbenchError::GlobIo(_),
{
    let input_paths = match resolve_paths(inputs) {
        Ok(v) => v,
        Err(e) => {
            return Err(e);
        },
    };
    if input_paths.len() == 0 {
        return Ok(true);
    }
    let output_paths = match resolve_paths(outputs) {
        Ok(v) => v,
        Err(e) => {
            return Err(e);
        },
    };
    let input_reads = match read_all_mtimes(&input_paths) {
        Ok(v) => v,
        Err(e) => {
            return Err(e);
        },
    };
    let input_times = match require_all_present(input_reads, &input_paths) {
        Ok(v) => v,
        Err(e) => {
            return Err(e);
        },
    };
    if output_paths.len() == 0 {
        return Ok(true);
    }
    let output_times = match read_all_mtimes(&output_paths) {
        Ok(v) => v,
        Err(e) => {
            return Err(e);
        },
    };
    Ok(should_run_from_mtimes(&input_times, &output_times))
}

/// The reason a task may be skipped, from the staleness answer: a task that
/// need not run is skipped as `cached`, and only then.
pub fn skip_reason(must_run: bool) -> (r: Option<String>)
    ensures
        match r {
            Some(s) => !must_run && s@ == "cached"@,
            None => must_run,
        },
{
    if must_run {
        None
    } else {
        Some(String::from_str("cached"))
    }
}

/// Whether the task must run, and if not, why it may be skipped.  A task
/// without declared inputs or without declared outputs always runs; one
/// whose inputs resolve to no paths always runs; one whose outputs are all
/// up to date is skipped with the reason `cached`, and only such a task.
pub fn should_run_task(task: &Task) -> (r: Result<Option<String>, WorkbenchError>)
    ensures
        task.inputs is None || task.outputs is None ==> r == Ok::<
            Option<String>,
            WorkbenchError,
        >(None),
        (match (task.inputs, task.outputs) {
            (Some(fin), Some(_)) => spec_include_patterns(fin).len() == 0 && (forall|k: int|
                0 <= k < spec_exclude_patterns(fin).len() ==> pattern_ok(
                    #[trigger] spec_exclude_patterns(fin)[k],
                )) ==> r == Ok::<Option<String>, WorkbenchError>(None),
            _ => true,
        }),
        r matches Ok(Some(s)) ==> s@ == "cached"@ && task.inputs is Some && task.outputs is Some,
{
    match (&task.inputs, &task.outputs) {
        (Some(ins), Some(outs)) => match should_run_tasks_files(ins, outs) {
            Ok(must_run) => Ok(skip_reason(must_run)),
            Err(e) => Err(e),
        },
        _ => Ok(None),
    }
}

} // verus!
