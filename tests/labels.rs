use traefik_exposer::container::ContainerInfo;
use traefik_exposer::labels::{get_label, has_label_prefix, label_key, put_entry, split_on_commas, LABEL_PREFIX};

#[test]
fn label_key_prepends_namespace() {
    assert_eq!(label_key("enabled"), "kasama.traefik-exposer.enabled");
    assert_eq!(label_key(""), LABEL_PREFIX);
}

#[test]
fn namespace_prefix_check() {
    assert!(has_label_prefix("kasama.traefik-exposer.rule"));
    assert!(has_label_prefix("kasama.traefik-exposer."));
    assert!(!has_label_prefix("kasama.traefik-exposer"));
    assert!(!has_label_prefix("com.docker.compose.project"));
    assert!(!has_label_prefix(""));
}

#[test]
fn split_on_commas_matches_str_split() {
    for input in ["", "http", "web,websecure", ",", "a,,b,", "ü,ß"] {
        let expected: Vec<String> = input.split(',').map(String::from).collect();
        assert_eq!(split_on_commas(input), expected, "input {:?}", input);
    }
}

#[test]
fn get_label_finds_first_binding() {
    let labels = vec![
        ("a".to_string(), "1".to_string()),
        ("b".to_string(), "2".to_string()),
        ("a".to_string(), "3".to_string()),
    ];
    assert_eq!(get_label(&labels, &"a".to_string()), Some("1".to_string()));
    assert_eq!(get_label(&labels, &"b".to_string()), Some("2".to_string()));
    assert_eq!(get_label(&labels, &"c".to_string()), None);
}

#[test]
fn put_entry_replaces_or_appends() {
    let mut m: Vec<(String, u32)> = vec![];
    put_entry(&mut m, "x".to_string(), 1);
    put_entry(&mut m, "y".to_string(), 2);
    put_entry(&mut m, "x".to_string(), 3);
    assert_eq!(m, vec![("x".to_string(), 3), ("y".to_string(), 2)]);
}

#[test]
fn only_namespaced_labels_are_kept() {
    let c = ContainerInfo::new(
        "web".to_string(),
        "10.0.0.5".to_string(),
        vec![
            ("com.docker.compose.service".to_string(), "web".to_string()),
            ("kasama.traefik-exposer.enabled".to_string(), "true".to_string()),
            ("kasama.traefik-exposer.rule".to_string(), "Host(`a`)".to_string()),
        ],
    );
    assert_eq!(
        c.labels(),
        &vec![
            ("kasama.traefik-exposer.enabled".to_string(), "true".to_string()),
            ("kasama.traefik-exposer.rule".to_string(), "Host(`a`)".to_string()),
        ]
    );
}

#[test]
fn from_runtime_applies_defaults() {
    let c = ContainerInfo::from_runtime(None, None, None);
    assert_eq!(c.name(), "");
    assert_eq!(c.ip(), "");
    assert!(c.labels().is_empty());
    let c = ContainerInfo::from_runtime(
        Some(vec!["/web".to_string(), "/alias".to_string()]),
        Some("10.0.0.5".to_string()),
        Some(vec![("other".to_string(), "x".to_string())]),
    );
    assert_eq!(c.name(), "/web");
    assert_eq!(c.ip(), "10.0.0.5");
    assert!(c.labels().is_empty());
    let c = ContainerInfo::from_runtime(Some(vec![]), None, None);
    assert_eq!(c.name(), "");
}

#[test]
fn duplicate_is_equal_copy() {
    let c = ContainerInfo::from_runtime(
        Some(vec!["web".to_string()]),
        Some("1.1.1.1".to_string()),
        Some(vec![("kasama.traefik-exposer.port".to_string(), "81".to_string())]),
    );
    let d = c.duplicate();
    assert_eq!(d.name(), c.name());
    assert_eq!(d.ip(), c.ip());
    assert_eq!(d.labels(), c.labels());
}
