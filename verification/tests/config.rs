//! Configuration values: reading one out of the whole, and toggling it.

use serde_json::Value;
use wind_coordinator::config::{load_value, toggle, ConfigError, FieldType};

fn doc() -> Value {
    serde_json::from_str(
        r#"{"ui":{"candidate":{"per_page":7,"layout":"vertical","colors":["a","b"]},"on":true},
            "a.b":1,"name":"wind"}"#,
    )
    .unwrap()
}

fn read(key: &str) -> String {
    load_value(key, true, false, false, &doc()).unwrap()
}

#[test]
fn values_are_read_by_their_path() {
    assert_eq!(read("ui.candidate.per_page"), "7");
    assert_eq!(read("ui.candidate.layout"), "vertical", "strings lose their quotes");
    assert_eq!(read("ui.on"), "true");
    assert_eq!(read("ui.candidate.colors"), r#"["a","b"]"#);
    assert_eq!(read("name"), "wind");
}

#[test]
fn a_path_has_to_lead_somewhere() {
    for key in ["ui.missing", "name.more", "a.b", "ui.candidate.colors.0", ""] {
        match load_value(key, true, false, false, &doc()) {
            Err(ConfigError::Missing { key: k }) => assert_eq!(k, key),
            other => panic!("{key}: {other:?}"),
        }
    }
    assert_eq!(
        load_value("x.y", true, false, false, &doc()).unwrap_err().message(),
        "配置缺少键 x.y"
    );
}

#[test]
fn unknown_keys_are_not_looked_up() {
    let e = load_value("name", false, true, true, &doc()).unwrap_err();
    assert!(matches!(e, ConfigError::Unknown { .. }));
    assert_eq!(e.message(), "未登记的配置键: name");
}

#[test]
fn fallen_back_values_are_read_but_not_toggled() {
    assert_eq!(load_value("name", true, false, true, &doc()).unwrap(), "wind");
    let e = load_value("name", true, true, true, &doc()).unwrap_err();
    assert!(matches!(e, ConfigError::Degraded { .. }));
    assert!(e.message().starts_with("本次配置加载中 [name] 所在段解析失败"));
}

#[test]
fn switches_flip_and_flip_back() {
    assert_eq!(toggle("k", &FieldType::Bool, "true").unwrap(), "false");
    assert_eq!(toggle("k", &FieldType::Bool, "false").unwrap(), "true");
    assert_eq!(toggle("k", &FieldType::Bool, "odd").unwrap(), "true");
}

#[test]
fn choices_go_round() {
    let words = || {
        FieldType::Enum(["smart", "general", "gb18030"].iter().map(|s| s.to_string()).collect())
    };
    assert_eq!(toggle("k", &words(), "smart").unwrap(), "general");
    assert_eq!(toggle("k", &words(), "general").unwrap(), "gb18030");
    assert_eq!(toggle("k", &words(), "gb18030").unwrap(), "smart");
    assert_eq!(toggle("k", &words(), "other").unwrap(), "smart");
}

#[test]
fn anything_else_is_not_toggled() {
    let e = toggle("ui.per_page", &FieldType::Other, "7").unwrap_err();
    assert!(matches!(e, ConfigError::NotToggled { .. }));
    assert_eq!(e.message(), "config.toggle 仅支持 bool / 枚举键: ui.per_page");
}
