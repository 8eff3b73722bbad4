use workbench::builtin::{get_task_names, try_exec_builtin_task};
use workbench::cli::{TaskArgs, WorkbenchArgs};
use workbench::config::{Config, Run, Shell, Task, TaskTable};
use workbench::console::{create_logger, ConsoleEvent, Level, Log, Logger};
use workbench::shell::resolve;
use workbench::task_path::TaskPath;

fn args(verbose: bool) -> WorkbenchArgs {
    WorkbenchArgs {
        jobs: 0,
        verbose,
        config: None,
        disable_progress: false,
        disable_color: false,
        disable_unicode: false,
    }
}

#[test]
fn test_create_logger_verbose_keeps_status() {
    let mut logger = create_logger(&args(true));
    logger.log_message(Level::Status, "hello");
    assert_eq!(
        logger.events,
        vec![ConsoleEvent::Message {
            level: Level::Status,
            text: "hello".to_owned(),
        }]
    );
}

#[test]
fn test_create_logger_quiet_drops_status() {
    let mut logger = create_logger(&args(false));
    logger.log_message(Level::Status, "hello");
    assert_eq!(logger.events, vec![]);
    logger.log_message(Level::Error, "boom");
    assert_eq!(
        logger.events,
        vec![ConsoleEvent::Message {
            level: Level::Error,
            text: "boom".to_owned(),
        }]
    );
}

#[test]
fn test_logger_new_is_empty() {
    let logger = Logger::new(Level::Warning);
    assert_eq!(logger.min_level, Level::Warning);
    assert!(logger.events.is_empty());
}

#[test]
fn test_shell_resolve_mapping() {
    assert_eq!(resolve(&Shell::Bool(true)), Some("/bin/sh".to_owned()));
    assert_eq!(resolve(&Shell::Bool(false)), None);
    assert_eq!(
        resolve(&Shell::Path("/bin/bash".to_owned())),
        Some("/bin/bash".to_owned())
    );
}

#[test]
fn test_get_task_names_lists_builtin_first() {
    let mut tasks = TaskTable::new();
    tasks.insert(
        "a".to_owned(),
        Task {
            run: Run::Args(vec!["true".to_owned()]),
            shell: None,
            dependencies: None,
            inputs: None,
            outputs: None,
            description: None,
            examples: None,
            usage: None,
        },
    );
    let config = Config {
        tasks: Some(tasks),
        namespaces: None,
    };

    assert_eq!(get_task_names(&config), vec![":ls".to_owned(), "a".to_owned()]);
}

#[test]
fn test_try_exec_builtin_task_dispatch() {
    let config = Config {
        tasks: None,
        namespaces: None,
    };

    assert_eq!(
        try_exec_builtin_task(&config, &TaskPath::parse("a").unwrap()),
        None
    );
    assert_eq!(
        try_exec_builtin_task(&config, &TaskPath::parse(":ls").unwrap()),
        Some(true)
    );
    assert_eq!(
        try_exec_builtin_task(&config, &TaskPath::parse(":other").unwrap()),
        Some(false)
    );
    assert_eq!(
        try_exec_builtin_task(&config, &TaskPath::parse(":ls.help").unwrap()),
        Some(false)
    );
}

#[test]
fn test_split_then_parse_target() {
    let (wb, task_args) = workbench::cli::split_args(vec![
        "wb".to_owned(),
        "-v".to_owned(),
        "ns:name".to_owned(),
    ]);
    assert_eq!(wb, vec!["wb".to_owned(), "-v".to_owned()]);
    assert_eq!(
        task_args,
        TaskArgs {
            target_task_path: Some("ns:name".to_owned()),
            task_args: vec![],
        }
    );
    let path = TaskPath::parse(task_args.target_task_path.as_ref().unwrap()).unwrap();
    assert_eq!(path.namespace, Some("ns".to_owned()));
}
