use workbench::task_path::TaskPath;

#[test]
fn test_task_path_parse_empty() {
    assert!(TaskPath::parse("").is_err());
}

#[test]
fn test_task_path_parse_name_only() {
    assert_eq!(
        TaskPath::parse("a").unwrap(),
        TaskPath {
            namespace: None,
            built_in: false,
            name: "a".to_owned(),
            property: None,
        }
    );
}

#[test]
fn test_task_path_parse_built_in() {
    assert_eq!(
        TaskPath::parse(":a").unwrap(),
        TaskPath {
            namespace: None,
            built_in: true,
            name: "a".to_owned(),
            property: None,
        }
    );
}

#[test]
fn test_task_path_parse_namespace() {
    assert_eq!(
        TaskPath::parse("a:b").unwrap(),
        TaskPath {
            namespace: Some("a".to_owned()),
            built_in: false,
            name: "b".to_owned(),
            property: None,
        }
    );
}

#[test]
fn test_task_path_parse_property() {
    assert_eq!(
        TaskPath::parse("a.b").unwrap(),
        TaskPath {
            namespace: None,
            built_in: false,
            name: "a".to_owned(),
            property: Some("b".to_owned()),
        }
    );
}

#[test]
fn test_task_path_parse_illegal() {
    assert!(TaskPath::parse("a.b`").is_err());
}

#[test]
fn test_task_path_parse_colon_only() {
    assert!(TaskPath::parse(":").is_err());
}

#[test]
fn test_task_path_parse_rejects_double_dot() {
    assert!(TaskPath::parse("a.b.c").is_err());
}

#[test]
fn test_task_path_parse_rejects_double_colon() {
    assert!(TaskPath::parse("a:b:c").is_err());
}

#[test]
fn test_task_path_display_round_trip() {
    for text in ["a", ":a", "a:b", "a.b", "ns:name.prop", ":ls", "a-b:c-d.e-f"] {
        let parsed = TaskPath::parse(text).unwrap();
        assert_eq!(parsed.display(), text);
    }
}

#[test]
fn test_task_path_display_forms() {
    let p = TaskPath::parse("ns:name.prop").unwrap();
    assert_eq!(p.namespace, Some("ns".to_owned()));
    assert!(!p.built_in);
    assert_eq!(p.name, "name".to_owned());
    assert_eq!(p.property, Some("prop".to_owned()));
    assert_eq!(p.display(), "ns:name.prop");
}

#[test]
fn test_task_path_parse_unicode_letters() {
    let p = TaskPath::parse("café").unwrap();
    assert_eq!(p.name, "café".to_owned());
    assert_eq!(p.display(), "café");
}
