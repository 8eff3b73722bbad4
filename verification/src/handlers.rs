//! Spawning a task's command and capturing what it printed.
//!
//! A string-form command runs as `<interpreter> -c <command>` and requires a
//! resolved interpreter.  An argv-form command runs directly when no shell is
//! selected, and otherwise has each argument POSIX-sh quoted and joined into
//! one `-c` string.  Stderr is merged into stdout and captured.

use vstd::prelude::*;
use vstd::string::*;

use crate::config::{Run, Task};
use crate::errors::WorkbenchError;
use crate::shell::{resolve, spec_resolve};
use crate::task_path::{clone_path, TaskPath};

verus! {

/// The exit code reported for a child that a signal terminated.
pub const FALLBACK_EXIT_CODE_FOR_SIGNAL_TERMINATION: i32 = 255;

/// What a finished child left behind: its exit code, the captured merged
/// stdout and stderr, and the wall-clock duration in nanoseconds.
#[derive(Debug)]
pub struct Output {
    pub exit_code: i32,
    pub console_output: Vec<u8>,
    pub duration_nanos: u128,
}

/// The interpreter a task's run form and shell setting select: a string-form
/// command defaults to the default shell, an argv form to none.
pub open spec fn spec_effective_shell(task: Task) -> Option<Seq<char>> {
    match task.shell {
        Some(s) => spec_resolve(s),
        None => match task.run {
            Run::Command(_) => Some("/bin/sh"@),
            Run::Args(_) => None,
        },
    }
}

/// What `shell_quote::Sh::quote_vec` returns: POSIX-sh quoting, a function
/// of the argument alone.
pub uninterp spec fn sh_quoted(s: Seq<char>) -> Seq<char>;

/// Relies on `shell_quote::Sh::quote_vec`: POSIX-sh quoting of one
/// argument, a function of the argument alone.
#[verifier::external_body]
fn sh_quote(arg: &String) -> (r: String)
    ensures
        r@ == sh_quoted(arg@),
{
    String::from_utf8_lossy(&shell_quote::Sh::quote_vec(arg.as_str())).into_owned()
}

/// An argv list joined for `-c`: each argument quoted, each followed by one
/// space.
pub open spec fn spec_quoted_command(args: Seq<String>) -> Seq<char>
    decreases args.len(),
{
    if args.len() == 0 {
        Seq::empty()
    } else {
        sh_quoted(args[0]@) + seq![' '] + spec_quoted_command(args.skip(1))
    }
}

proof fn lemma_quoted_command_push(args: Seq<String>, x: String)
    ensures
        spec_quoted_command(args.push(x)) == spec_quoted_command(args) + sh_quoted(x@)
            + seq![' '],
    decreases args.len(),
{
    if args.len() == 0 {
        assert(args.push(x).skip(1) =~= args);
        assert(spec_quoted_command(args.push(x)) =~= spec_quoted_command(args) + sh_quoted(x@)
            + seq![' ']);
    } else {
        lemma_quoted_command_push(args.skip(1), x);
        assert(args.push(x).skip(1) =~= args.skip(1).push(x));
        assert(args.push(x)[0] == args[0]);
        assert(sh_quoted(args[0]@) + seq![' '] + (spec_quoted_command(args.skip(1)) + sh_quoted(
            x@,
        ) + seq![' ']) =~= (sh_quoted(args[0]@) + seq![' '] + spec_quoted_command(args.skip(1)))
            + sh_quoted(x@) + seq![' ']);
    }
}

fn build_shell_command(args: &Vec<String>) -> (r: String)
    ensures
        r@ == spec_quoted_command(args@),
{
    let mut out = String::new();
    let mut i: usize = 0;
    while i < args.len()
        invariant
            0 <= i <= args@.len(),
            out@ == spec_quoted_command(args@.take(i as int)),
        decreases args@.len() - i,
    {
        proof {
            lemma_quoted_command_push(args@.take(i as int), args@[i as int]);
            assert(args@.take(i + 1) =~= args@.take(i as int).push(args@[i as int]));
            reveal_strlit(" ");
            assert(" "@ =~= seq![' ']);
        }
        let quoted = sh_quote(&args[i]);
        out.append(quoted.as_str());
        out.append(" ");
        i += 1;
    }
    proof {
        assert(args@.take(args@.len() as int) =~= args@);
    }
    out
}

/// The argv a task's command spawns, given an interpreter was resolved when
/// one is needed: a string-form command and a shell-selected argv form run
/// as `interpreter -c text`; a bare argv form runs as itself.
pub open spec fn spec_spawn_argv(task: Task) -> Seq<Seq<char>> {
    match spec_effective_shell(task) {
        Some(interpreter) => seq![
            interpreter,
            "-c"@,
            match task.run {
                Run::Command(c) => c@,
                Run::Args(a) => spec_quoted_command(a@),
            },
        ],
        None => match task.run {
            Run::Command(_) => Seq::empty(),
            Run::Args(a) => a.deep_view(),
        },
    }
}

/// Assemble the argv a task's command spawns, or `None` exactly when a
/// string-form command has no interpreter to run under.
pub fn build_spawn_argv(task: &Task) -> (r: Option<Vec<String>>)
    requires
        task.run matches Run::Args(a) ==> a@.len() > 0,
    ensures
        r is None <==> (task.run matches Run::Command(_) && spec_effective_shell(*task) is None),
        r matches Some(v) ==> v.deep_view() == spec_spawn_argv(*task) && v@.len() >= 1,
{
    let interpreter = match &task.shell {
        Some(s) => resolve(s),
        None => match &task.run {
            Run::Command(_) => Some(String::from_str("/bin/sh")),
            Run::Args(_) => None,
        },
    };
    match interpreter {
        Some(interpreter) => {
            let text = match &task.run {
                Run::Command(c) => c.clone(),
                Run::Args(a) => build_shell_command(a),
            };
            let mut argv: Vec<String> = Vec::new();
            argv.push(interpreter);
            argv.push(String::from_str("-c"));
            argv.push(text);
            proof {
                assert(argv.deep_view() =~= spec_spawn_argv(*task));
            }
            Some(argv)
        },
        None => match &task.run {
            Run::Command(_) => None,
            Run::Args(a) => {
                let argv = crate::files::clone_strings(a);
                proof {
                    assert(argv.deep_view() =~= spec_spawn_argv(*task));
                }
                Some(argv)
            },
        },
    }
}

/// Fold a spawn result into an `Output`: the exit code as reported, with
/// the fixed fallback when a signal terminated the child (the status then
/// carries no code); the captured bytes and the duration pass through
/// unchanged.  A non-zero exit code is an ordinary `Output`, never a
/// failure.
pub fn output_from_spawn(code: Option<i32>, captured: Vec<u8>, duration_nanos: u128) -> (r:
    Output)
    ensures
        r.exit_code == (match code {
            Some(c) => c,
            None => FALLBACK_EXIT_CODE_FOR_SIGNAL_TERMINATION,
        }),
        r.console_output == captured,
        r.duration_nanos == duration_nanos,
{
    Output {
        exit_code: match code {
            Some(c) => c,
            None => FALLBACK_EXIT_CODE_FOR_SIGNAL_TERMINATION,
        },
        console_output: captured,
        duration_nanos,
    }
}

/// Relies on `duct::cmd` and `duct::Expression::run`: spawns the first
/// argument as the program with the rest as its arguments, merges stderr
/// into stdout, captures the stream, and waits; and on `std::time::Instant`
/// for the wall-clock duration.  The exit status is `None` when a signal
/// terminated the child.  What the child does depends on the machine, so
/// only the error class is promised.
#[verifier::external_body]
fn run_argv(argv: &Vec<String>) -> (r: Result<(Option<i32>, Vec<u8>, u128), WorkbenchError>)
    requires
        argv@.len() >= 1,
    ensures
        r matches Err(e) ==> e matches WorkbenchError::Io(_),
{
    let start = std::time::Instant::now();
    let run = duct::cmd(argv[0].as_str(), argv[1..].iter().map(|s| s.as_str()))
        .unchecked()
        .stderr_to_stdout()
        .stdout_capture()
        .run();
    match run {
        Ok(output) => Ok((output.status.code(), output.stdout, start.elapsed().as_nanos())),
        Err(e) => Err(WorkbenchError::Io(e.to_string())),
    }
}

/// Run a task's command and capture its output.  Fails with `ShellRequired`
/// exactly when the command is string-form and the task's shell setting
/// resolves to no interpreter; otherwise `build_spawn_argv` fixes the argv
/// that is spawned and `output_from_spawn` the result folding.  Spawn
/// failures surface as I/O errors; a non-zero exit code is not an error.
pub fn handle_execution(task_path: &TaskPath, task: &Task) -> (r: Result<Output, WorkbenchError>)
    requires
        task.run matches Run::Args(a) ==> a@.len() > 0,
    ensures
        (match r {
            Err(WorkbenchError::ShellRequired(_, _)) => true,
            _ => false,
        }) <==> (task.run matches Run::Command(_) && spec_effective_shell(*task) is None),
        (match r {
            Err(WorkbenchError::ShellRequired(p, c)) => p == *task_path && (task.run
                matches Run::Command(cmd) && c@ == cmd@),
            _ => true,
        }),
        (match r {
            Err(e) => e matches WorkbenchError::ShellRequired(_, _) || e
                matches WorkbenchError::Io(_),
            _ => true,
        }),
{
    let argv = match build_spawn_argv(task) {
        Some(v) => v,
        None => {
            match &task.run {
                Run::Command(command) => {
                    return Err(
                        WorkbenchError::ShellRequired(clone_path(task_path), command.clone()),
                    );
                },
                Run::Args(_) => {
                    proof {
                        assert(false);
                    }
                    return vstd::pervasive::unreached();
                },
            }
        },
    };
    match run_argv(&argv) {
        Err(e) => Err(e),
        Ok((code, captured, nanos)) => Ok(output_from_spawn(code, captured, nanos)),
    }
}

} // verus!
