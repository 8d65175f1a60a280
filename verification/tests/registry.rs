use matrix_webhook::formatters::{lua_formatter_name, Applied, FormatterRegistry};
use matrix_webhook::headers::Headers;
use matrix_webhook::json::Json;

fn s(x: &str) -> Json {
    Json::Str(x.to_string())
}

fn obj(entries: Vec<(&str, Json)>) -> Json {
    Json::Object(entries.into_iter().map(|(k, v)| (k.to_string(), v)).collect())
}

fn formatted(a: Applied) -> Json {
    match a {
        Applied::Formatted(d) => d,
        Applied::Script(_, _) => panic!("expected a formatted value"),
    }
}

#[test]
fn names_are_sorted_and_contain_builtins() {
    let registry = FormatterRegistry::new(Vec::new());
    let names = registry.names();
    assert!(names.contains(&"github"));
    assert!(names.contains(&"grafana"));
    assert!(names.contains(&"identity"));
    assert!(names.contains(&"discord"));
    // sorted check: each element <= next
    assert!(names.windows(2).all(|w| w[0] <= w[1]));
}

#[test]
fn builtin_names_exactly() {
    let registry = FormatterRegistry::new(Vec::new());
    assert_eq!(
        registry.names(),
        vec!["discord", "github", "gitlab_gchat", "gitlab_teams", "gitlab_webhook", "grafana", "grn", "identity"]
    );
}

#[test]
fn apply_known_formatter() {
    let registry = FormatterRegistry::new(Vec::new());
    let data = || obj(vec![("body", s("hello"))]);
    let result = formatted(registry.apply("identity", data(), &Headers::new()));
    assert_eq!(result, data());
}

#[test]
fn apply_unknown_formatter_returns_data_unchanged() {
    let registry = FormatterRegistry::new(Vec::new());
    let data = || obj(vec![("body", s("test")), ("extra", Json::Number("1".to_string()))]);
    let result = formatted(registry.apply("nonexistent", data(), &Headers::new()));
    assert_eq!(result, data());
}

#[test]
fn apply_builtin_formats() {
    let registry = FormatterRegistry::new(Vec::new());
    let result = formatted(registry.apply("grn", obj(vec![]), &Headers::new()));
    assert_eq!(
        result.get_str("body").unwrap(),
        "###  - \n\n\n\n[ released new version **** for ****](https://github.com//releases/tag/).\n\n"
    );
}

#[test]
fn lua_script_overrides_builtin() {
    let registry = FormatterRegistry::new(vec![
        ("github".to_string(), "function format(d, h) return d end".to_string()),
        ("custom".to_string(), "first".to_string()),
        ("custom".to_string(), "second".to_string()),
    ]);
    match registry.apply("github", obj(vec![]), &Headers::new()) {
        Applied::Script(script, data) => {
            assert_eq!(script, "function format(d, h) return d end");
            assert_eq!(data, obj(vec![]));
        }
        Applied::Formatted(_) => panic!("the script should override the built-in"),
    }
    match registry.apply("custom", obj(vec![]), &Headers::new()) {
        Applied::Script(script, _) => assert_eq!(script, "second"),
        Applied::Formatted(_) => panic!("expected the script"),
    }
    assert_eq!(registry.names().len(), 9);
    assert!(registry.writes_fields("grafana"));
    assert!(!registry.writes_fields("github"));
    assert!(!registry.writes_fields("identity"));
}

#[test]
fn lua_file_names() {
    assert_eq!(lua_formatter_name("my_service.lua"), Some("my_service".to_string()));
    assert_eq!(lua_formatter_name("a.b.lua"), Some("a.b".to_string()));
    assert_eq!(lua_formatter_name(".lua"), None);
    assert_eq!(lua_formatter_name("notes.txt"), None);
    assert_eq!(lua_formatter_name("lua"), None);
    assert_eq!(lua_formatter_name("x.LUA"), None);
}
