use filetime::FileTime;
use workbench::config::{Files, Run, Task};
use workbench::staleness::{require_all_present, should_run_from_mtimes, should_run_task, skip_reason};

fn file_task(inputs: Option<Files>, outputs: Option<Files>) -> Task {
    Task {
        run: Run::Args(vec!["true".to_owned()]),
        shell: None,
        dependencies: None,
        inputs,
        outputs,
        description: None,
        examples: None,
        usage: None,
    }
}

fn list(paths: Vec<String>) -> Files {
    Files::List(paths)
}

#[test]
fn test_should_run_without_inputs() {
    let task = file_task(None, Some(list(vec!["out.txt".to_owned()])));
    assert_eq!(should_run_task(&task).unwrap(), None);
}

#[test]
fn test_should_run_without_outputs() {
    let task = file_task(Some(list(vec!["in.txt".to_owned()])), None);
    assert_eq!(should_run_task(&task).unwrap(), None);
}

#[test]
fn test_should_run_inputs_resolve_to_nothing() {
    let dir = tempfile::tempdir().unwrap();
    let output = tempfile::NamedTempFile::new_in(dir.path()).unwrap();

    let task = file_task(
        Some(list(vec![format!("{}/absent-*", dir.path().display())])),
        Some(list(vec![output.path().display().to_string()])),
    );

    // No resolved inputs: the task always runs.
    assert_eq!(should_run_task(&task).unwrap(), None);
}

#[test]
fn test_should_run_cached_when_outputs_newer() {
    let dir = tempfile::tempdir().unwrap();
    let input = tempfile::NamedTempFile::new_in(dir.path()).unwrap();
    let output = tempfile::NamedTempFile::new_in(dir.path()).unwrap();

    filetime::set_file_mtime(input.path(), FileTime::from_unix_time(1_000_000, 0)).unwrap();
    filetime::set_file_mtime(output.path(), FileTime::from_unix_time(2_000_000, 0)).unwrap();

    let task = file_task(
        Some(list(vec![input.path().display().to_string()])),
        Some(list(vec![output.path().display().to_string()])),
    );

    assert_eq!(should_run_task(&task).unwrap(), Some("cached".to_owned()));
}

#[test]
fn test_should_run_when_output_stale() {
    let dir = tempfile::tempdir().unwrap();
    let input = tempfile::NamedTempFile::new_in(dir.path()).unwrap();
    let output = tempfile::NamedTempFile::new_in(dir.path()).unwrap();

    filetime::set_file_mtime(input.path(), FileTime::from_unix_time(2_000_000, 0)).unwrap();
    filetime::set_file_mtime(output.path(), FileTime::from_unix_time(1_000_000, 0)).unwrap();

    let task = file_task(
        Some(list(vec![input.path().display().to_string()])),
        Some(list(vec![output.path().display().to_string()])),
    );

    assert_eq!(should_run_task(&task).unwrap(), None);
}

#[test]
fn test_should_run_cached_when_times_equal() {
    let dir = tempfile::tempdir().unwrap();
    let input = tempfile::NamedTempFile::new_in(dir.path()).unwrap();
    let output = tempfile::NamedTempFile::new_in(dir.path()).unwrap();

    filetime::set_file_mtime(input.path(), FileTime::from_unix_time(1_500_000, 0)).unwrap();
    filetime::set_file_mtime(output.path(), FileTime::from_unix_time(1_500_000, 0)).unwrap();

    let task = file_task(
        Some(list(vec![input.path().display().to_string()])),
        Some(list(vec![output.path().display().to_string()])),
    );

    // Equal timestamps count as up to date.
    assert_eq!(should_run_task(&task).unwrap(), Some("cached".to_owned()));
}

#[test]
fn test_decision_no_inputs_runs() {
    assert!(should_run_from_mtimes(&vec![], &vec![Some(5)]));
}

#[test]
fn test_decision_no_outputs_runs() {
    assert!(should_run_from_mtimes(&vec![5], &vec![]));
}

#[test]
fn test_decision_missing_output_runs() {
    assert!(should_run_from_mtimes(&vec![5], &vec![Some(9), None]));
}

#[test]
fn test_decision_stale_output_runs() {
    assert!(should_run_from_mtimes(&vec![5, 8], &vec![Some(9), Some(7)]));
}

#[test]
fn test_decision_fresh_outputs_cached() {
    assert!(!should_run_from_mtimes(&vec![5, 8], &vec![Some(9), Some(8)]));
}

#[test]
fn test_skip_reason_mapping() {
    assert_eq!(skip_reason(true), None);
    assert_eq!(skip_reason(false), Some("cached".to_owned()));
}

#[test]
fn test_require_all_present() {
    let paths = vec!["a".to_owned(), "b".to_owned()];

    assert_eq!(
        require_all_present(vec![Some(3), Some(5)], &paths).unwrap(),
        vec![3, 5]
    );
    assert!(matches!(
        require_all_present(vec![Some(3), None], &paths),
        Err(workbench::errors::WorkbenchError::Io(_))
    ));
}
