use rustfast::config::{split_text, ConfValue, Config};

fn obj(fields: Vec<(&str, ConfValue)>) -> ConfValue {
    ConfValue::Object(fields.into_iter().map(|(k, v)| (k.to_string(), v)).collect())
}

fn s(v: &str) -> ConfValue {
    ConfValue::Str(v.to_string())
}

fn as_str(v: Option<&ConfValue>) -> Option<String> {
    match v {
        Some(ConfValue::Str(s)) => Some(s.clone()),
        Some(ConfValue::Number(n)) => Some(format!("#{}", n)),
        Some(_) => Some("<other>".to_string()),
        None => None,
    }
}

fn sample() -> Config {
    Config::from_value(obj(vec![
        ("app", obj(vec![("name", s("RustFast")), ("port", ConfValue::Number("8080".to_string()))])),
        ("list", ConfValue::Array(vec![s("a")])),
    ]))
}

#[test]
fn dotted_lookup() {
    let c = sample();
    assert_eq!(as_str(c.get_raw("app.name")), Some("RustFast".to_string()));
    assert_eq!(as_str(c.get_raw("app.port")), Some("#8080".to_string()));
    assert_eq!(as_str(c.get_raw("app")), Some("<other>".to_string()));
    assert_eq!(as_str(c.get_raw("app.missing")), None);
    assert_eq!(as_str(c.get_raw("list.0")), None);
    assert!(c.has("app.name"));
    assert!(!c.has("app.name.more"));
}

#[test]
fn set_creates_objects() {
    let mut c = sample();
    c.set("database.sqlite.path", s("db.sqlite"));
    assert_eq!(as_str(c.get_raw("database.sqlite.path")), Some("db.sqlite".to_string()));
    c.set("app.name", s("Other"));
    assert_eq!(as_str(c.get_raw("app.name")), Some("Other".to_string()));
    assert_eq!(as_str(c.get_raw("app.port")), Some("#8080".to_string()));
}

#[test]
fn set_through_non_object_does_nothing() {
    let mut c = sample();
    c.set("app.name.first", s("x"));
    assert_eq!(as_str(c.get_raw("app.name")), Some("RustFast".to_string()));
    assert!(!c.has("app.name.first"));
}

#[test]
fn env_overrides() {
    let mut c = sample();
    let vars = vec![
        ("APP_NAME".to_string(), "FromEnv".to_string()),
        ("DATABASE_HOST".to_string(), "db.local".to_string()),
        ("path".to_string(), "/usr/bin".to_string()),
        ("HOME".to_string(), "/root".to_string()),
        ("Mixed_Case".to_string(), "x".to_string()),
    ];
    c.apply_env_overrides(&vars);
    assert_eq!(as_str(c.get_raw("app.name")), Some("FromEnv".to_string()));
    assert_eq!(as_str(c.get_raw("database.host")), Some("db.local".to_string()));
    assert!(!c.has("path"));
    assert!(!c.has("home"));
    assert!(!c.has("mixed"));
}

#[test]
fn splitting_keys() {
    assert_eq!(split_text("a.b..c", '.'), vec!["a", "b", "", "c"]);
    assert_eq!(split_text("", '.'), vec![""]);
}

#[test]
fn yaml_text_is_read() {
    let c = Config::from_str("database:\n  host: db.local\n  port: 5432\napp:\n  debug: true\n")
        .ok()
        .expect("yaml");
    assert_eq!(as_str(c.get_raw("database.host")), Some("db.local".to_string()));
    assert!(matches!(c.get_raw("database.port"), Some(ConfValue::Number(n)) if n == "5432"));
    assert!(matches!(c.get_raw("app.debug"), Some(ConfValue::Bool(true))));
    assert!(c.has("database"));
    assert!(!c.has("database.user"));
    let empty = Config::from_str("{}").ok().expect("empty");
    assert!(matches!(empty.root(), ConfValue::Object(f) if f.is_empty()));
}

#[test]
fn bad_yaml_is_a_config_error() {
    match Config::from_str("a: [1, 2") {
        Err(rustfast::error::FastError::Config(m)) => assert!(m.starts_with("Failed to parse YAML: ")),
        _ => panic!("expected a configuration error"),
    }
}
