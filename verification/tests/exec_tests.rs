use workbench::config::{Config, Run, Task, TaskTable};
use workbench::console::{ConsoleEvent, Context, Level, Logger};
use workbench::exec::exec;
use workbench::task_path::TaskPath;

fn simple_task(argv: &[&str], dependencies: Option<Vec<String>>) -> Task {
    Task {
        run: Run::Args(argv.iter().map(|s| s.to_string()).collect()),
        shell: None,
        dependencies,
        inputs: None,
        outputs: None,
        description: None,
        examples: None,
        usage: None,
    }
}

fn config_of(entries: Vec<(&str, Task)>) -> Config {
    let mut tasks = TaskTable::new();
    for (name, task) in entries {
        tasks.insert(name.to_owned(), task);
    }
    Config {
        tasks: Some(tasks),
        namespaces: None,
    }
}

fn begun(name: &str) -> ConsoleEvent {
    ConsoleEvent::TaskBegun {
        path: TaskPath::parse(name).unwrap(),
    }
}

fn completed_ok(name: &str) -> ConsoleEvent {
    ConsoleEvent::ExecOutput {
        path: TaskPath::parse(name).unwrap(),
        exit_code: 0,
    }
}

#[test]
fn test_exec_target_task_path_not_found() {
    let config = Config {
        tasks: None,
        namespaces: None,
    };

    let mut console = Context::new(Logger::new(Level::Status));

    let result = exec(&config, &mut console, &TaskPath::parse("a").unwrap());

    assert!(result.is_err());
}

#[test]
fn test_exec_one_task() {
    let config = config_of(vec![("a", simple_task(&["true"], None))]);

    let mut console = Context::new(Logger::new(Level::Status));

    let result = exec(&config, &mut console, &TaskPath::parse("a").unwrap());

    assert!(result.unwrap());

    assert_eq!(
        console.events,
        vec![begun("a"), completed_ok("a"), ConsoleEvent::TaskCompleted]
    );
}

#[test]
fn test_exec_task_with_one_dependency() {
    let config = config_of(vec![
        ("a", simple_task(&["true"], None)),
        ("b", simple_task(&["true"], Some(vec!["a".to_owned()]))),
    ]);

    let mut console = Context::new(Logger::new(Level::Status));

    let result = exec(&config, &mut console, &TaskPath::parse("b").unwrap());

    assert!(result.unwrap());

    assert_eq!(
        console.events,
        vec![
            begun("a"),
            completed_ok("a"),
            ConsoleEvent::TaskCompleted,
            begun("b"),
            completed_ok("b"),
            ConsoleEvent::TaskCompleted,
        ]
    );
}

#[test]
fn test_exec_task_with_two_dependencies() {
    let config = config_of(vec![
        ("a", simple_task(&["sleep", "0.01"], None)),
        ("b", simple_task(&["sleep", "0.02"], None)),
        (
            "c",
            simple_task(&["true"], Some(vec!["a".to_owned(), "b".to_owned()])),
        ),
    ]);

    let mut console = Context::new(Logger::new(Level::Status));

    let result = exec(&config, &mut console, &TaskPath::parse("c").unwrap());

    assert!(result.unwrap());

    // Dependencies run in declaration order here; both must complete before
    // `c` begins.
    assert_eq!(
        console.events,
        vec![
            begun("a"),
            completed_ok("a"),
            ConsoleEvent::TaskCompleted,
            begun("b"),
            completed_ok("b"),
            ConsoleEvent::TaskCompleted,
            begun("c"),
            completed_ok("c"),
            ConsoleEvent::TaskCompleted,
        ]
    );
}

#[test]
fn test_exec_task_chain() {
    let config = config_of(vec![
        ("a", simple_task(&["true"], None)),
        ("b", simple_task(&["true"], Some(vec!["a".to_owned()]))),
        ("c", simple_task(&["true"], Some(vec!["b".to_owned()]))),
    ]);

    let mut console = Context::new(Logger::new(Level::Status));

    let result = exec(&config, &mut console, &TaskPath::parse("c").unwrap());

    assert!(result.unwrap());

    assert_eq!(
        console.events,
        vec![
            begun("a"),
            completed_ok("a"),
            ConsoleEvent::TaskCompleted,
            begun("b"),
            completed_ok("b"),
            ConsoleEvent::TaskCompleted,
            begun("c"),
            completed_ok("c"),
            ConsoleEvent::TaskCompleted,
        ]
    );
}

#[test]
fn test_exec_dependency_failure_skips_parent() {
    let config = config_of(vec![
        ("a", simple_task(&["false"], None)),
        ("b", simple_task(&["true"], Some(vec!["a".to_owned()]))),
    ]);

    let mut console = Context::new(Logger::new(Level::Status));

    let result = exec(&config, &mut console, &TaskPath::parse("b").unwrap());

    assert!(!result.unwrap());

    // `b` is never begun: only `a`'s events appear, with its failing code.
    assert_eq!(
        console.events,
        vec![
            begun("a"),
            ConsoleEvent::ExecOutput {
                path: TaskPath::parse("a").unwrap(),
                exit_code: 1,
            },
            ConsoleEvent::TaskCompleted,
        ]
    );
}

#[test]
fn test_exec_empty_dependencies_runs_immediately() {
    let config = config_of(vec![("a", simple_task(&["true"], Some(vec![])))]);

    let mut console = Context::new(Logger::new(Level::Status));

    let result = exec(&config, &mut console, &TaskPath::parse("a").unwrap());

    assert!(result.unwrap());

    assert_eq!(
        console.events,
        vec![begun("a"), completed_ok("a"), ConsoleEvent::TaskCompleted]
    );
}

#[test]
fn test_exec_cycle_is_reported() {
    let config = config_of(vec![("a", simple_task(&["true"], Some(vec!["a".to_owned()])))]);

    let mut console = Context::new(Logger::new(Level::Status));

    let result = exec(&config, &mut console, &TaskPath::parse("a").unwrap());

    assert!(result.is_err());
}

#[test]
fn test_exec_invalid_dependency_aggregates() {
    let config = config_of(vec![(
        "a",
        simple_task(&["true"], Some(vec!["b`d".to_owned()])),
    )]);

    let mut console = Context::new(Logger::new(Level::Status));

    let result = exec(&config, &mut console, &TaskPath::parse("a").unwrap());

    assert!(matches!(
        result,
        Err(workbench::errors::WorkbenchError::Aggregate(_))
    ));
}

#[test]
fn test_exec_namespaced_task() {
    let mut tasks = TaskTable::new();
    tasks.insert("build".to_owned(), simple_task(&["true"], None));
    let mut namespaces = workbench::config::NamespaceTable::new();
    namespaces.insert(
        "web".to_owned(),
        workbench::config::Namespace { tasks },
    );
    let config = Config {
        tasks: None,
        namespaces: Some(namespaces),
    };

    let mut console = Context::new(Logger::new(Level::Status));

    let result = exec(&config, &mut console, &TaskPath::parse("web:build").unwrap());

    assert!(result.unwrap());

    assert_eq!(
        console.events,
        vec![
            begun("web:build"),
            completed_ok("web:build"),
            ConsoleEvent::TaskCompleted,
        ]
    );
}

#[test]
fn test_exec_skips_cached_task() {
    let dir = tempfile::tempdir().unwrap();
    let input = tempfile::NamedTempFile::new_in(dir.path()).unwrap();
    let output = tempfile::NamedTempFile::new_in(dir.path()).unwrap();

    filetime::set_file_mtime(
        input.path(),
        filetime::FileTime::from_unix_time(1_000_000, 0),
    )
    .unwrap();
    filetime::set_file_mtime(
        output.path(),
        filetime::FileTime::from_unix_time(2_000_000, 0),
    )
    .unwrap();

    let mut task = simple_task(&["true"], None);
    task.inputs = Some(workbench::config::Files::List(vec![input
        .path()
        .display()
        .to_string()]));
    task.outputs = Some(workbench::config::Files::List(vec![output
        .path()
        .display()
        .to_string()]));

    let config = config_of(vec![("a", task)]);

    let mut console = Context::new(Logger::new(Level::Status));

    let result = exec(&config, &mut console, &TaskPath::parse("a").unwrap());

    assert!(result.unwrap());

    assert_eq!(
        console.events,
        vec![
            begun("a"),
            ConsoleEvent::ExecSkipped {
                path: TaskPath::parse("a").unwrap(),
                reason: "cached".to_owned(),
            },
            ConsoleEvent::TaskCompleted,
        ]
    );
}
