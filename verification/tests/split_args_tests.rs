use workbench::cli::{split_args, TaskArgs};

#[test]
fn test_one_arg() {
    let args = split_args(vec!["wb".to_owned()]);

    assert_eq!(
        args,
        (
            vec!["wb".to_owned()],
            TaskArgs {
                target_task_path: None,
                task_args: vec![],
            },
        )
    )
}

#[test]
fn test_one_flag() {
    let args = split_args(vec!["wb".to_owned(), "--help".to_owned()]);

    assert_eq!(
        args,
        (
            vec!["wb".to_owned(), "--help".to_owned()],
            TaskArgs {
                target_task_path: None,
                task_args: vec![],
            },
        )
    )
}

#[test]
fn test_one_option() {
    let args = split_args(vec!["wb".to_owned(), "-j".to_owned(), "5".to_owned()]);

    assert_eq!(
        args,
        (
            vec!["wb".to_owned(), "-j".to_owned(), "5".to_owned()],
            TaskArgs {
                target_task_path: None,
                task_args: vec![],
            },
        )
    )
}

#[test]
fn test_one_option_missing_value() {
    let args = split_args(vec!["wb".to_owned(), "-j".to_owned()]);

    assert_eq!(
        args,
        (
            vec!["wb".to_owned(), "-j".to_owned()],
            TaskArgs {
                target_task_path: None,
                task_args: vec![],
            },
        )
    )
}

#[test]
fn test_two_wb_args() {
    let args = split_args(vec![
        "wb".to_owned(),
        "-j".to_owned(),
        "5".to_owned(),
        "--help".to_owned(),
    ]);

    assert_eq!(
        args,
        (
            vec![
                "wb".to_owned(),
                "-j".to_owned(),
                "5".to_owned(),
                "--help".to_owned(),
            ],
            TaskArgs {
                target_task_path: None,
                task_args: vec![],
            },
        )
    )
}

#[test]
fn test_task_name() {
    let args = split_args(vec!["wb".to_owned(), "a".to_owned()]);

    assert_eq!(
        args,
        (
            vec!["wb".to_owned(),],
            TaskArgs {
                target_task_path: Some("a".to_owned()),
                task_args: vec![],
            },
        )
    )
}

#[test]
fn test_task_args() {
    let args = split_args(vec![
        "wb".to_owned(),
        "a".to_owned(),
        "b".to_owned(),
        "c".to_owned(),
    ]);

    assert_eq!(
        args,
        (
            vec!["wb".to_owned(),],
            TaskArgs {
                target_task_path: Some("a".to_owned()),
                task_args: vec!["b".to_owned(), "c".to_owned()],
            },
        )
    )
}

#[test]
fn test_wb_flag_and_task_args() {
    let args = split_args(vec![
        "wb".to_owned(),
        "--help".to_owned(),
        "a".to_owned(),
        "b".to_owned(),
        "c".to_owned(),
    ]);

    assert_eq!(
        args,
        (
            vec!["wb".to_owned(), "--help".to_owned()],
            TaskArgs {
                target_task_path: Some("a".to_owned()),
                task_args: vec!["b".to_owned(), "c".to_owned()],
            },
        )
    )
}

#[test]
fn test_wb_option_and_task_args() {
    let args = split_args(vec![
        "wb".to_owned(),
        "--jobs".to_owned(),
        "5".to_owned(),
        "a".to_owned(),
        "b".to_owned(),
        "c".to_owned(),
    ]);

    assert_eq!(
        args,
        (
            vec!["wb".to_owned(), "--jobs".to_owned(), "5".to_owned()],
            TaskArgs {
                target_task_path: Some("a".to_owned()),
                task_args: vec!["b".to_owned(), "c".to_owned()],
            },
        )
    )
}

#[test]
fn test_wb_option_and_task_args_missing_value() {
    let args = split_args(vec![
        "wb".to_owned(),
        "--jobs".to_owned(),
        "a".to_owned(),
        "b".to_owned(),
        "c".to_owned(),
    ]);

    assert_eq!(
        args,
        (
            vec!["wb".to_owned(), "--jobs".to_owned(), "a".to_owned()],
            TaskArgs {
                target_task_path: Some("b".to_owned()),
                task_args: vec!["c".to_owned()],
            },
        )
    )
}
