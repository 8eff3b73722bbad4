use workbench::config::{Run, Shell, Task};
use workbench::handlers::{
    build_spawn_argv, handle_execution, output_from_spawn, FALLBACK_EXIT_CODE_FOR_SIGNAL_TERMINATION,
};
use workbench::task_path::TaskPath;

fn task(run: Run, shell: Option<Shell>) -> Task {
    Task {
        run,
        shell,
        dependencies: None,
        inputs: None,
        outputs: None,
        description: None,
        examples: None,
        usage: None,
    }
}

#[test]
fn test_handle_execution_successful_without_shell_without_output() {
    let task_path = TaskPath::parse("a").unwrap();

    let task = task(Run::Args(vec!["true".to_string()]), None);

    let output = handle_execution(&task_path, &task).unwrap();

    assert_eq!(output.exit_code, 0);
    assert_eq!(output.console_output, vec![]);
}

#[test]
fn test_handle_execution_successful_without_shell_with_output() {
    let task_path = TaskPath::parse("a").unwrap();

    let task = task(Run::Args(vec!["echo".to_string(), "a".to_string()]), None);

    let output = handle_execution(&task_path, &task).unwrap();

    assert_eq!(output.exit_code, 0);
    assert_eq!(output.console_output, vec![b'a', b'\n']);
}

#[test]
fn test_handle_execution_successful_with_shell_without_output() {
    let task_path = TaskPath::parse("a").unwrap();

    let task = task(Run::Args(vec!["true".to_string()]), Some(Shell::Bool(true)));

    let output = handle_execution(&task_path, &task).unwrap();

    assert_eq!(output.exit_code, 0);
    assert_eq!(output.console_output, vec![]);
}

#[test]
fn test_handle_execution_successful_with_shell_with_output() {
    let task_path = TaskPath::parse("a").unwrap();

    let task = task(
        Run::Args(vec!["echo".to_string(), "a".to_string()]),
        Some(Shell::Bool(true)),
    );

    let output = handle_execution(&task_path, &task).unwrap();

    assert_eq!(output.exit_code, 0);
    assert_eq!(output.console_output, vec![b'a', b'\n']);
}

#[test]
fn test_handle_execution_unsuccessful_without_shell_without_output() {
    let task_path = TaskPath::parse("a").unwrap();

    let task = task(Run::Args(vec!["false".to_string()]), None);

    let output = handle_execution(&task_path, &task).unwrap();

    assert_eq!(output.exit_code, 1);
    assert_eq!(output.console_output, vec![]);
}

#[test]
fn test_handle_execution_unsuccessful_without_shell_with_output() {
    let task_path = TaskPath::parse("a").unwrap();

    let task = task(
        Run::Args(vec![
            "cat".to_string(),
            "this/file/does/not/exist".to_string(),
        ]),
        None,
    );

    let output = handle_execution(&task_path, &task).unwrap();

    assert_eq!(output.exit_code, 1);
    assert_eq!(
        output.console_output,
        b"cat: this/file/does/not/exist: No such file or directory\n".to_vec()
    );
}

#[test]
fn test_handle_execution_unsuccessful_with_shell_without_output() {
    let task_path = TaskPath::parse("a").unwrap();

    let task = task(Run::Args(vec!["false".to_string()]), Some(Shell::Bool(true)));

    let output = handle_execution(&task_path, &task).unwrap();

    assert_eq!(output.exit_code, 1);
    assert_eq!(output.console_output, vec![]);
}

#[test]
fn test_handle_execution_unsuccessful_with_shell_with_output() {
    let task_path = TaskPath::parse("a").unwrap();

    let task = task(
        Run::Args(vec![
            "cat".to_string(),
            "this/file/does/not/exist".to_string(),
        ]),
        Some(Shell::Bool(true)),
    );

    let output = handle_execution(&task_path, &task).unwrap();

    assert_eq!(output.exit_code, 1);
    assert_eq!(
        output.console_output,
        b"cat: this/file/does/not/exist: No such file or directory\n".to_vec()
    );
}

#[test]
fn test_handle_execution_stdout_then_stderr() {
    let task_path = TaskPath::parse("a").unwrap();

    let task = task(
        Run::Command("echo a && echo b 1>&2".to_owned()),
        Some(Shell::Bool(true)),
    );

    let output = handle_execution(&task_path, &task).unwrap();

    assert_eq!(output.exit_code, 0);
    assert_eq!(output.console_output, b"a\nb\n".to_vec());
}

#[test]
fn test_handle_execution_stderr_then_stdout() {
    let task_path = TaskPath::parse("a").unwrap();

    let task = task(
        Run::Command("echo a 1>&2 && echo b".to_owned()),
        Some(Shell::Bool(true)),
    );

    let output = handle_execution(&task_path, &task).unwrap();

    assert_eq!(output.exit_code, 0);
    assert_eq!(output.console_output, b"a\nb\n".to_vec());
}

#[test]
fn test_handle_execution_string_with_shell() {
    let task_path = TaskPath::parse("a").unwrap();

    let task = task(Run::Command("set".to_owned()), Some(Shell::Bool(true)));

    assert_eq!(handle_execution(&task_path, &task).unwrap().exit_code, 0);
}

#[test]
fn test_handle_execution_vec_without_shell() {
    let task_path = TaskPath::parse("a").unwrap();

    let task = task(Run::Args(vec!["echo".to_owned(), "$SHELL".to_owned()]), None);

    assert_eq!(
        handle_execution(&task_path, &task).unwrap().console_output,
        b"$SHELL\n".to_vec()
    );
}

#[test]
fn test_handle_execution_vec_with_shell() {
    let task_path = TaskPath::parse("a").unwrap();

    let task = task(
        Run::Args(vec![":".to_owned()]),
        Some(Shell::Path("/bin/sh".to_owned())),
    );

    let output = handle_execution(&task_path, &task).unwrap();

    assert_eq!(output.exit_code, 0);
    assert!(output.console_output.is_empty());
}

#[test]
fn test_handle_execution_string_defaults_to_shell() {
    let task_path = TaskPath::parse("a").unwrap();

    let task = task(Run::Command("set".to_owned()), None);

    assert_eq!(handle_execution(&task_path, &task).unwrap().exit_code, 0);
}

#[test]
fn test_handle_execution_string_with_shell_false() {
    let task_path = TaskPath::parse("a").unwrap();

    let task = task(Run::Command("set".to_owned()), Some(Shell::Bool(false)));

    assert!(handle_execution(&task_path, &task).is_err());
}

#[test]
fn test_handle_execution_args_quoted_with_shell() {
    let task_path = TaskPath::parse("a").unwrap();

    let task = task(
        Run::Args(vec!["echo".to_owned(), "a  b$HOME".to_owned()]),
        Some(Shell::Bool(true)),
    );

    let output = handle_execution(&task_path, &task).unwrap();

    assert_eq!(output.exit_code, 0);
    assert_eq!(output.console_output, b"a  b$HOME\n".to_vec());
}

#[test]
fn test_build_spawn_argv_forms() {
    let command = task(Run::Command("echo hi".to_owned()), None);
    assert_eq!(
        build_spawn_argv(&command),
        Some(vec![
            "/bin/sh".to_owned(),
            "-c".to_owned(),
            "echo hi".to_owned(),
        ])
    );

    let bare = task(Run::Args(vec!["echo".to_owned(), "hi".to_owned()]), None);
    assert_eq!(
        build_spawn_argv(&bare),
        Some(vec!["echo".to_owned(), "hi".to_owned()])
    );

    let refused = task(Run::Command("echo hi".to_owned()), Some(Shell::Bool(false)));
    assert_eq!(build_spawn_argv(&refused), None);

    let quoted = task(
        Run::Args(vec!["echo".to_owned(), "a b".to_owned()]),
        Some(Shell::Bool(true)),
    );
    assert_eq!(
        build_spawn_argv(&quoted),
        Some(vec![
            "/bin/sh".to_owned(),
            "-c".to_owned(),
            "echo a' b' ".to_owned(),
        ])
    );
}

#[test]
fn test_output_from_spawn_fallback() {
    let reported = output_from_spawn(Some(7), vec![1, 2], 9);
    assert_eq!(reported.exit_code, 7);
    assert_eq!(reported.console_output, vec![1, 2]);
    assert_eq!(reported.duration_nanos, 9);

    let signalled = output_from_spawn(None, vec![], 0);
    assert_eq!(
        signalled.exit_code,
        FALLBACK_EXIT_CODE_FOR_SIGNAL_TERMINATION
    );
}
