use workbench::config::{Config, Namespace, NamespaceTable, Run, Task, TaskTable};
use workbench::query::{count_dependencies_of_path, get_task_at_path};
use workbench::task_path::TaskPath;

fn task_with_deps(dependencies: Option<Vec<String>>) -> Task {
    Task {
        run: Run::Args(vec!["true".to_owned()]),
        shell: None,
        dependencies,
        inputs: None,
        outputs: None,
        description: None,
        examples: None,
        usage: None,
    }
}

fn config_of(entries: Vec<(&str, Task)>) -> Config {
    let mut tasks = TaskTable::new();
    for (name, task) in entries {
        tasks.insert(name.to_owned(), task);
    }
    Config {
        tasks: Some(tasks),
        namespaces: None,
    }
}

#[test]
fn test_get_task_at_path_top_level() {
    let config = config_of(vec![("a", task_with_deps(None))]);

    assert!(get_task_at_path(&config, &TaskPath::parse("a").unwrap()).is_some());
    assert!(get_task_at_path(&config, &TaskPath::parse("b").unwrap()).is_none());
}

#[test]
fn test_get_task_at_path_namespaced() {
    let mut tasks = TaskTable::new();
    tasks.insert("build".to_owned(), task_with_deps(None));
    let mut namespaces = NamespaceTable::new();
    namespaces.insert("web".to_owned(), Namespace { tasks });
    let config = Config {
        tasks: None,
        namespaces: Some(namespaces),
    };

    assert!(get_task_at_path(&config, &TaskPath::parse("web:build").unwrap()).is_some());
    assert!(get_task_at_path(&config, &TaskPath::parse("api:build").unwrap()).is_none());
    assert!(get_task_at_path(&config, &TaskPath::parse("web:test").unwrap()).is_none());
    assert!(get_task_at_path(&config, &TaskPath::parse("build").unwrap()).is_none());
}

#[test]
fn test_count_dependencies_none() {
    let config = config_of(vec![("a", task_with_deps(None))]);

    assert_eq!(
        count_dependencies_of_path(&config, &TaskPath::parse("a").unwrap()).unwrap(),
        Some(0)
    );
}

#[test]
fn test_count_dependencies_chain() {
    let config = config_of(vec![
        ("a", task_with_deps(None)),
        ("b", task_with_deps(Some(vec!["a".to_owned()]))),
        ("c", task_with_deps(Some(vec!["b".to_owned()]))),
    ]);

    assert_eq!(
        count_dependencies_of_path(&config, &TaskPath::parse("c").unwrap()).unwrap(),
        Some(2)
    );
}

#[test]
fn test_count_dependencies_multi_path() {
    // `d` is a dependency of both `b` and `c`: both edges into it are
    // counted, plus the two edges out of `a`.
    let config = config_of(vec![
        ("d", task_with_deps(None)),
        ("b", task_with_deps(Some(vec!["d".to_owned()]))),
        ("c", task_with_deps(Some(vec!["d".to_owned()]))),
        ("a", task_with_deps(Some(vec!["b".to_owned(), "c".to_owned()]))),
    ]);

    assert_eq!(
        count_dependencies_of_path(&config, &TaskPath::parse("a").unwrap()).unwrap(),
        Some(4)
    );
}

#[test]
fn test_count_dependencies_missing_task() {
    let config = config_of(vec![("a", task_with_deps(None))]);

    assert_eq!(
        count_dependencies_of_path(&config, &TaskPath::parse("x").unwrap()).unwrap(),
        None
    );
}

#[test]
fn test_count_dependencies_unresolvable_dependency() {
    let config = config_of(vec![("a", task_with_deps(Some(vec!["x".to_owned()])))]);

    assert_eq!(
        count_dependencies_of_path(&config, &TaskPath::parse("a").unwrap()).unwrap(),
        None
    );
}

#[test]
fn test_count_dependencies_cycle_is_error() {
    let config = config_of(vec![("a", task_with_deps(Some(vec!["a".to_owned()])))]);

    assert!(matches!(
        count_dependencies_of_path(&config, &TaskPath::parse("a").unwrap()),
        Err(workbench::errors::WorkbenchError::DependencyCycle(_))
    ));
}

#[test]
fn test_count_dependencies_invalid_dependency_string() {
    let config = config_of(vec![("a", task_with_deps(Some(vec!["b`d".to_owned()])))]);

    assert!(matches!(
        count_dependencies_of_path(&config, &TaskPath::parse("a").unwrap()),
        Err(workbench::errors::WorkbenchError::InvalidTaskPath(_))
    ));
}
