//! The console interface: log levels, the observable event stream, and the
//! console context the executor drives.
//!
//! `Log` and `Progress` are the sink capabilities a console provides;
//! production binds a printing sink around them, tests bind the recording
//! `Logger`.  `Context` wraps a sink for the executor: it records the
//! observable event stream — the subject of the executor's contracts — and
//! forwards every event to the sink.

use vstd::prelude::*;
use vstd::string::*;

use crate::cli::WorkbenchArgs;
use crate::config::Task;
use crate::errors::WorkbenchError;
use crate::handlers::Output;
use crate::task_path::{clone_path, TaskPath, TaskPathView};

verus! {

/// Log severity, ordered `Status < Warning < Error`.
#[derive(Clone, Copy, Debug, PartialEq, Eq, Structural)]
pub enum Level {
    Status,
    Warning,
    Error,
}

pub open spec fn level_rank(l: Level) -> int {
    match l {
        Level::Status => 0,
        Level::Warning => 1,
        Level::Error => 2,
    }
}

fn rank(l: &Level) -> (r: u8)
    ensures
        r as int == level_rank(*l),
{
    match l {
        Level::Status => 0,
        Level::Warning => 1,
        Level::Error => 2,
    }
}

/// Whether a message at `level` passes a sink whose minimum level is `min`.
pub open spec fn level_passes(level: Level, min: Level) -> bool {
    level_rank(level) >= level_rank(min)
}

pub fn level_at_least(level: &Level, min: &Level) -> (r: bool)
    ensures
        r == level_passes(*level, *min),
{
    rank(level) >= rank(min)
}

/// One observable console event.
#[derive(Debug)]
pub enum ConsoleEvent {
    Message { level: Level, text: String },
    ExecOutput { path: TaskPath, exit_code: i32 },
    ExecSkipped { path: TaskPath, reason: String },
    TaskBegun { path: TaskPath },
    TaskCompleted,
}

/// The mathematical form of a console event.
pub enum EventView {
    Message { level: Level, text: Seq<char> },
    ExecOutput { path: TaskPathView, exit_code: i32 },
    ExecSkipped { path: TaskPathView, reason: Seq<char> },
    TaskBegun { path: TaskPathView },
    TaskCompleted,
}

impl View for ConsoleEvent {
    type V = EventView;

    open spec fn view(&self) -> EventView {
        match self {
            ConsoleEvent::Message { level, text } => EventView::Message {
                level: *level,
                text: text@,
            },
            ConsoleEvent::ExecOutput { path, exit_code } => EventView::ExecOutput {
                path: path@,
                exit_code: *exit_code,
            },
            ConsoleEvent::ExecSkipped { path, reason } => EventView::ExecSkipped {
                path: path@,
                reason: reason@,
            },
            ConsoleEvent::TaskBegun { path } => EventView::TaskBegun { path: path@ },
            ConsoleEvent::TaskCompleted => EventView::TaskCompleted,
        }
    }
}

impl PartialEq for ConsoleEvent {
    fn eq(&self, other: &Self) -> (r: bool) {
        let r = match (self, other) {
            (
                ConsoleEvent::Message { level: l1, text: t1 },
                ConsoleEvent::Message { level: l2, text: t2 },
            ) => *l1 == *l2 && t1.eq(t2),
            (
                ConsoleEvent::ExecOutput { path: p1, exit_code: c1 },
                ConsoleEvent::ExecOutput { path: p2, exit_code: c2 },
            ) => p1 == p2 && *c1 == *c2,
            (
                ConsoleEvent::ExecSkipped { path: p1, reason: r1 },
                ConsoleEvent::ExecSkipped { path: p2, reason: r2 },
            ) => p1 == p2 && r1.eq(r2),
            (
                ConsoleEvent::TaskBegun { path: p1 },
                ConsoleEvent::TaskBegun { path: p2 },
            ) => p1 == p2,
            (ConsoleEvent::TaskCompleted, ConsoleEvent::TaskCompleted) => true,
            _ => false,
        };
        proof {
            if r {
                assert(self@ == other@);
            }
        }
        r
    }
}

impl vstd::std_specs::cmp::PartialEqSpecImpl for ConsoleEvent {
    open spec fn obeys_eq_spec() -> bool {
        true
    }

    open spec fn eq_spec(&self, other: &Self) -> bool {
        self@ == other@
    }
}

/// The event stream a list of recorded events denotes.
pub open spec fn events_view(events: Seq<ConsoleEvent>) -> Seq<EventView> {
    events.map(|i: int, e: ConsoleEvent| e@)
}

/// The logging capability of a console sink: plain messages and per-task
/// results.  Implementations decide presentation; the executor's guarantees
/// are stated over the event stream that `Context` records.
pub trait Log {
    /// Log a plain message; the sink may drop it by its level.
    fn log_message(&mut self, level: Level, message: &str);

    /// Report a task's captured output and exit code.
    fn log_exec_output(&mut self, task_path: &TaskPath, task: &Task, output: &Output);

    /// Report that a task was skipped, and why.
    fn log_exec_skipped(&mut self, task_path: &TaskPath, reason: &str);
}

/// The progress capability of a console sink.
pub trait Progress {
    /// Mark a task as begun.
    fn begin_task(&mut self, task_path: &TaskPath, task: &Task);

    /// Mark one task as completed.
    fn complete_task(&mut self);

    /// Clear any progress display.
    fn clear(&mut self) -> Result<(), WorkbenchError>;
}

/// A sink that records its events, dropping plain messages below its
/// minimum level.  Tests read the recorded list back.
#[derive(Debug)]
pub struct Logger {
    pub min_level: Level,
    pub events: Vec<ConsoleEvent>,
}

impl Logger {
    /// A logger that drops messages below `min_level` and has recorded
    /// nothing yet.
    pub fn new(min_level: Level) -> (r: Logger)
        ensures
            r.min_level == min_level,
            r.events@ == Seq::<ConsoleEvent>::empty(),
    {
        Logger { min_level, events: Vec::new() }
    }
}

impl Log for Logger {
    fn log_message(&mut self, level: Level, message: &str) {
        if level_at_least(&level, &self.min_level) {
            self.events.push(ConsoleEvent::Message { level, text: message.to_owned() });
        }
    }

    fn log_exec_output(&mut self, task_path: &TaskPath, task: &Task, output: &Output) {
        self.events.push(
            ConsoleEvent::ExecOutput { path: clone_path(task_path), exit_code: output.exit_code },
        );
    }

    fn log_exec_skipped(&mut self, task_path: &TaskPath, reason: &str) {
        self.events.push(
            ConsoleEvent::ExecSkipped { path: clone_path(task_path), reason: reason.to_owned() },
        );
    }
}

impl Progress for Logger {
    fn begin_task(&mut self, task_path: &TaskPath, task: &Task) {
        self.events.push(ConsoleEvent::TaskBegun { path: clone_path(task_path) });
    }

    fn complete_task(&mut self) {
        self.events.push(ConsoleEvent::TaskCompleted);
    }

    fn clear(&mut self) -> (r: Result<(), WorkbenchError>) {
        Ok(())
    }
}

/// The console the executor drives: it records the observable event stream
/// and forwards every event to the sink it wraps.  The executor's ordering
/// and success guarantees are stated over `events`.
pub struct Context<C> {
    pub sink: C,
    pub events: Vec<ConsoleEvent>,
}

impl<C: Log + Progress> Context<C> {
    /// The observable event stream so far.
    pub open spec fn stream(&self) -> Seq<EventView> {
        events_view(self.events@)
    }

    /// A context around `sink` with an empty stream.
    pub fn new(sink: C) -> (r: Context<C>)
        ensures
            r.stream() == Seq::<EventView>::empty(),
    {
        let r = Context { sink, events: Vec::new() };
        proof {
            assert(r.stream() =~= Seq::<EventView>::empty());
        }
        r
    }

    /// Log a plain message.
    pub fn log_message(&mut self, level: Level, message: &str)
        ensures
            final(self).stream() == old(self).stream().push(
                EventView::Message { level, text: message@ },
            ),
    {
        let ghost before = self.events@;
        self.sink.log_message(level, message);
        self.events.push(ConsoleEvent::Message { level, text: message.to_owned() });
        proof {
            assert(self.stream() =~= events_view(before).push(
                EventView::Message { level, text: message@ },
            ));
        }
    }

    /// Report a task's captured output and exit code.
    pub fn log_exec_output(&mut self, task_path: &TaskPath, task: &Task, output: &Output)
        ensures
            final(self).stream() == old(self).stream().push(
                EventView::ExecOutput { path: task_path@, exit_code: output.exit_code },
            ),
    {
        let ghost before = self.events@;
        self.sink.log_exec_output(task_path, task, output);
        self.events.push(
            ConsoleEvent::ExecOutput { path: clone_path(task_path), exit_code: output.exit_code },
        );
        proof {
            assert(self.stream() =~= events_view(before).push(
                EventView::ExecOutput { path: task_path@, exit_code: output.exit_code },
            ));
        }
    }

    /// Report that a task was skipped, and why.
    pub fn log_exec_skipped(&mut self, task_path: &TaskPath, reason: &str)
        ensures
            final(self).stream() == old(self).stream().push(
                EventView::ExecSkipped { path: task_path@, reason: reason@ },
            ),
    {
        let ghost before = self.events@;
        self.sink.log_exec_skipped(task_path, reason);
        self.events.push(
            ConsoleEvent::ExecSkipped { path: clone_path(task_path), reason: reason.to_owned() },
        );
        proof {
            assert(self.stream() =~= events_view(before).push(
                EventView::ExecSkipped { path: task_path@, reason: reason@ },
            ));
        }
    }

    /// Mark a task as begun.
    pub fn begin_task(&mut self, task_path: &TaskPath, task: &Task)
        ensures
            final(self).stream() == old(self).stream().push(
                EventView::TaskBegun { path: task_path@ },
            ),
    {
        let ghost before = self.events@;
        self.sink.begin_task(task_path, task);
        self.events.push(ConsoleEvent::TaskBegun { path: clone_path(task_path) });
        proof {
            assert(self.stream() =~= events_view(before).push(
                EventView::TaskBegun { path: task_path@ },
            ));
        }
    }

    /// Mark one task as completed.
    pub fn complete_task(&mut self)
        ensures
            final(self).stream() == old(self).stream().push(EventView::TaskCompleted),
    {
        let ghost before = self.events@;
        self.sink.complete_task();
        self.events.push(ConsoleEvent::TaskCompleted);
        proof {
            assert(self.stream() =~= events_view(before).push(EventView::TaskCompleted));
        }
    }

    /// Clear any progress display; appends nothing to the stream.
    pub fn clear(&mut self) -> (r: Result<(), WorkbenchError>)
        ensures
            final(self).stream() == old(self).stream(),
    {
        self.sink.clear()
    }
}

/// The logger the front end starts with: verbose selects `Status`,
/// otherwise `Warning`.
pub fn create_logger(workbench_args: &WorkbenchArgs) -> (r: Logger)
    ensures
        r.min_level == (if workbench_args.verbose {
            Level::Status
        } else {
            Level::Warning
        }),
        r.events@ == Seq::<ConsoleEvent>::empty(),
{
    Logger::new(if workbench_args.verbose {
        Level::Status
    } else {
        Level::Warning
    })
}

} // verus!
