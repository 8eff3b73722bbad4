//! Splitting a raw argument vector into the engine's own arguments and the
//! target task's arguments.
//!
//! Everything after the binary name that starts with `-` belongs to the
//! engine; four options also consume a value.  The first other argument is
//! the target task path, and the rest are forwarded to it.

use vstd::prelude::*;
use vstd::string::*;

verus! {

/// The engine's own command-line settings.
#[derive(Debug)]
pub struct WorkbenchArgs {
    pub jobs: u32,
    pub verbose: bool,
    pub config: Option<String>,
    pub disable_progress: bool,
    pub disable_color: bool,
    pub disable_unicode: bool,
}

impl PartialEq for WorkbenchArgs {
    fn eq(&self, other: &Self) -> (r: bool) {
        let config_eq = match (&self.config, &other.config) {
            (Some(a), Some(b)) => a.eq(b),
            (None, None) => true,
            _ => false,
        };
        self.jobs == other.jobs && self.verbose == other.verbose && config_eq
            && self.disable_progress == other.disable_progress && self.disable_color
            == other.disable_color && self.disable_unicode == other.disable_unicode
    }
}

impl vstd::std_specs::cmp::PartialEqSpecImpl for WorkbenchArgs {
    open spec fn obeys_eq_spec() -> bool {
        true
    }

    open spec fn eq_spec(&self, other: &Self) -> bool {
        self.jobs == other.jobs && self.verbose == other.verbose && self.config.deep_view()
            == other.config.deep_view() && self.disable_progress == other.disable_progress
            && self.disable_color == other.disable_color && self.disable_unicode
            == other.disable_unicode
    }
}

/// The target task path and the arguments forwarded to it.
#[derive(Debug)]
pub struct TaskArgs {
    pub target_task_path: Option<String>,
    pub task_args: Vec<String>,
}

fn string_vecs_eq(a: &Vec<String>, b: &Vec<String>) -> (r: bool)
    ensures
        r == (a.deep_view() == b.deep_view()),
{
    if a.len() != b.len() {
        proof {
            assert(a.deep_view().len() == a@.len());
            assert(b.deep_view().len() == b@.len());
        }
        return false;
    }
    let mut i: usize = 0;
    while i < a.len()
        invariant
            0 <= i <= a@.len(),
            a@.len() == b@.len(),
            forall|j: int| 0 <= j < i ==> #[trigger] a@[j]@ == b@[j]@,
        decreases a@.len() - i,
    {
        if !a[i].eq(&b[i]) {
            proof {
                assert(a.deep_view()[i as int] == a@[i as int]@);
                assert(b.deep_view()[i as int] == b@[i as int]@);
            }
            return false;
        }
        i += 1;
    }
    proof {
        assert(a.deep_view() =~= b.deep_view());
    }
    true
}

impl PartialEq for TaskArgs {
    fn eq(&self, other: &Self) -> (r: bool) {
        let target_eq = match (&self.target_task_path, &other.target_task_path) {
            (Some(a), Some(b)) => a.eq(b),
            (None, None) => true,
            _ => false,
        };
        target_eq && string_vecs_eq(&self.task_args, &other.task_args)
    }
}

impl vstd::std_specs::cmp::PartialEqSpecImpl for TaskArgs {
    open spec fn obeys_eq_spec() -> bool {
        true
    }

    open spec fn eq_spec(&self, other: &Self) -> bool {
        self.target_task_path.deep_view() == other.target_task_path.deep_view()
            && self.task_args.deep_view() == other.task_args.deep_view()
    }
}

/// Whether an argument addresses the engine: it starts with `-`.
pub open spec fn is_flag(s: Seq<char>) -> bool {
    s.len() > 0 && s[0] == '-'
}

fn starts_dash(s: &String) -> (r: bool)
    ensures
        r == is_flag(s@),
{
    let n = s.as_str().unicode_len();
    n > 0 && s.as_str().get_char(0) == '-'
}

/// The engine options that consume a following value.
pub open spec fn takes_value(s: Seq<char>) -> bool {
    ||| s == "-j"@
    ||| s == "--jobs"@
    ||| s == "-f"@
    ||| s == "--config"@
}

fn arg_takes_value(s: &String) -> (r: bool)
    ensures
        r == takes_value(s@),
{
    s.eq(&String::from_str("-j")) || s.eq(&String::from_str("--jobs")) || s.eq(
        &String::from_str("-f"),
    ) || s.eq(&String::from_str("--config"))
}

/// The index right after the engine's own arguments, scanning from `i`:
/// flags are consumed, value-taking options consume their value too, and the
/// scan stops at the first non-flag argument or at the end.
pub open spec fn spec_args_end(args: Seq<String>, i: int) -> int
    decreases args.len() - i,
{
    if i < 0 || i >= args.len() {
        args.len() as int
    } else if !is_flag(args[i]@) {
        i
    } else if takes_value(args[i]@) {
        if i + 1 < args.len() {
            spec_args_end(args, i + 2)
        } else {
            args.len() as int
        }
    } else {
        spec_args_end(args, i + 1)
    }
}

/// The engine's own arguments: the binary name and every consumed flag.
pub open spec fn spec_wb_args(args: Seq<String>) -> Seq<String> {
    args.take(spec_args_end(args, 1))
}

/// The target task path, if one follows the engine's arguments.
pub open spec fn spec_target(args: Seq<String>) -> Option<String> {
    let e = spec_args_end(args, 1);
    if e < args.len() {
        Some(args[e])
    } else {
        None
    }
}

/// The arguments forwarded to the target task.
pub open spec fn spec_task_args(args: Seq<String>) -> Seq<String> {
    let e = spec_args_end(args, 1);
    if e < args.len() {
        args.skip(e + 1)
    } else {
        Seq::empty()
    }
}

/// Split a raw argument vector: the binary name and every `-`-prefixed
/// argument (with the values of value-taking options) address the engine;
/// the first other argument is the target task path; the rest go to it.
pub fn split_args(args: Vec<String>) -> (r: (Vec<String>, TaskArgs))
    requires
        args@.len() >= 1,
    ensures
        r.0@ == spec_wb_args(args@),
        r.1.target_task_path == spec_target(args@),
        r.1.task_args@ == spec_task_args(args@),
{
    let ghost a = args@;
    let n = args.len();
    let mut wb: Vec<String> = Vec::new();
    wb.push(args[0].clone());
    let mut i: usize = 1;
    proof {
        assert(wb@ =~= a.take(1));
    }
    while i < n && starts_dash(&args[i])
        invariant
            1 <= i <= n,
            n == a.len(),
            a == args@,
            wb@ == a.take(i as int),
            spec_args_end(a, 1) == spec_args_end(a, i as int),
        decreases n - i,
    {
        let ghost i0 = i as int;
        wb.push(args[i].clone());
        if arg_takes_value(&args[i]) {
            if i + 1 < n {
                wb.push(args[i + 1].clone());
                i += 2;
            } else {
                i += 1;
            }
        } else {
            i += 1;
        }
        proof {
            assert(wb@ =~= a.take(i as int));
            assert(spec_args_end(a, i0) == spec_args_end(a, i as int));
        }
    }
    proof {
        assert(spec_args_end(a, i as int) == i as int);
    }
    let target_task_path = if i < n {
        let t = Some(args[i].clone());
        i += 1;
        t
    } else {
        None
    };
    let ghost rest_start = i as int;
    let mut task_args: Vec<String> = Vec::new();
    while i < n
        invariant
            0 <= rest_start <= i <= n,
            n == a.len(),
            a == args@,
            task_args@ == a.subrange(rest_start, i as int),
        decreases n - i,
    {
        task_args.push(args[i].clone());
        proof {
            assert(task_args@ =~= a.subrange(rest_start, i as int + 1));
        }
        i += 1;
    }
    proof {
        if spec_args_end(a, 1) < a.len() {
            assert(task_args@ =~= a.skip(spec_args_end(a, 1) + 1));
        } else {
            assert(task_args@ =~= Seq::<String>::empty());
        }
    }
    (wb, TaskArgs { target_task_path, task_args })
}

} // verus!
