use config_parser::errors::ConfigError;
use config_parser::errors::path::PathError;
use config_parser::model::JsonNode;
use config_parser::ops::{load_json, load_toml, read_json, read_toml, set_json, delete_json,
    list_json};
use config_parser::paths::{parse_path, PathSeg};
use config_parser::persist::{plan_json_delete, plan_json_set, plan_toml_set};
use config_parser::values::infer_value;

fn doc_a() -> JsonNode {
    let Ok(n) = load_json("{\"network\":{\"timeout\":500}}") else {
        panic!("document A must parse")
    };
    n
}

#[test]
fn scenario_a_read_timeout() {
    let doc = doc_a();
    let Some(path) = parse_path("network.timeout") else {
        panic!("path must parse")
    };
    let Ok(shown) = read_json(&doc, &path) else {
        panic!("read must succeed")
    };
    assert_eq!(shown, "500");
}

#[test]
fn scenario_b_toml_set_then_read() {
    let text = "servers = [{host=\"a\"}]\n";
    let Ok(new_text) = plan_toml_set(text, "servers[0].host", "localhost", false) else {
        panic!("set must succeed")
    };
    // The file still parses afterwards.
    let Ok((doc2, skel2)) = load_toml(&new_text) else {
        panic!("edited document must still parse")
    };
    let Some(path) = parse_path("servers[0].host") else {
        panic!("path must parse")
    };
    let Ok(shown) = read_toml(&doc2, &skel2, &path) else {
        panic!("read after set must succeed")
    };
    assert_eq!(shown, "localhost");
}

#[test]
fn scenario_c_read_missing_key() {
    let doc = doc_a();
    let Some(path) = parse_path("network.missing") else {
        panic!("path must parse")
    };
    let Err(e) = read_json(&doc, &path) else {
        panic!("read of a missing key must fail")
    };
    assert!(matches!(
        &e,
        ConfigError::Path(PathError::KeyNotFound { .. })
    ));
    assert_eq!(e.exit_code(), 4);
}

#[test]
fn scenario_d_delete_then_read() {
    let mut doc = doc_a();
    let Some(path) = parse_path("network.timeout") else {
        panic!("path must parse")
    };
    let r = delete_json(&mut doc, &path);
    assert!(r.is_ok());
    let Err(e) = read_json(&doc, &path) else {
        panic!("read after delete must fail")
    };
    assert!(matches!(
        &e,
        ConfigError::Path(PathError::KeyNotFound { .. })
    ));
    assert_eq!(e.exit_code(), 4);
}

#[test]
fn delete_twice_fails_second_time() {
    let text = "{\"network\":{\"timeout\":500}}";
    let Ok(once) = plan_json_delete(text, "network.timeout") else {
        panic!("first delete must succeed")
    };
    let Err(e) = plan_json_delete(&once, "network.timeout") else {
        panic!("second delete must fail")
    };
    assert!(matches!(
        &e,
        ConfigError::Path(PathError::KeyNotFound { .. })
    ));
    assert_eq!(e.exit_code(), 4);
}

#[test]
fn set_type_mismatch_is_type_error() {
    let mut doc = doc_a();
    let Some(path) = parse_path("network.timeout") else {
        panic!("path must parse")
    };
    // The existing node is an integer; "fast" infers as a string.
    let Err(e) = set_json(&mut doc, &path, infer_value("fast"), false) else {
        panic!("a kind mismatch must fail")
    };
    assert!(matches!(&e, ConfigError::Type(_)));
    assert_eq!(e.exit_code(), 5);
    // The tree is untouched: the old value still reads back.
    let Ok(shown) = read_json(&doc, &path) else {
        panic!("read must still succeed")
    };
    assert_eq!(shown, "500");
}

#[test]
fn set_matching_kind_replaces() {
    let mut doc = doc_a();
    let Some(path) = parse_path("network.timeout") else {
        panic!("path must parse")
    };
    let r = set_json(&mut doc, &path, infer_value("750"), false);
    assert!(r.is_ok());
    let Ok(shown) = read_json(&doc, &path) else {
        panic!("read must succeed")
    };
    assert_eq!(shown, "750");
}

#[test]
fn set_with_coercion_is_not_supported() {
    let mut doc = doc_a();
    let Some(path) = parse_path("network.timeout") else {
        panic!("path must parse")
    };
    let Err(e) = set_json(&mut doc, &path, infer_value("750"), true) else {
        panic!("coercion must be refused")
    };
    assert!(matches!(&e, ConfigError::NotSupported(_)));
    assert_eq!(e.exit_code(), 6);
}

#[test]
fn list_includes_resolved_child() {
    let doc = doc_a();
    let Some(parent) = parse_path("network") else {
        panic!("path must parse")
    };
    let Ok(children) = list_json(&doc, &parent) else {
        panic!("list must succeed")
    };
    let mut found = false;
    for c in &children {
        if let PathSeg::Key(k) = c {
            if k == "timeout" {
                found = true;
            }
        }
    }
    assert!(found, "list of the parent must include the resolved child");
}

#[test]
fn list_on_scalar_is_not_a_container() {
    let doc = doc_a();
    let Some(path) = parse_path("network.timeout") else {
        panic!("path must parse")
    };
    let Err(e) = list_json(&doc, &path) else {
        panic!("listing a scalar must fail")
    };
    assert!(matches!(
        &e,
        ConfigError::Path(PathError::NotAContainer { .. })
    ));
}

#[test]
fn toml_set_preserves_comments_and_siblings() {
    let text = "# deployment targets\n[network]\ntimeout = 500 # milliseconds\nretries = 3\n";
    let Ok(new_text) = plan_toml_set(text, "network.retries", "5", false) else {
        panic!("set must succeed")
    };
    assert!(new_text.contains("# deployment targets"));
    assert!(new_text.contains("timeout = 500 # milliseconds"));
    assert!(new_text.contains("retries = 5"));
}

#[test]
fn toml_delete_preserves_siblings() {
    let text = "[network]\ntimeout = 500\nretries = 3\n";
    let Ok(new_text) = config_parser::persist::plan_toml_delete(text, "network.retries") else {
        panic!("delete must succeed")
    };
    assert!(new_text.contains("timeout = 500"));
    assert!(!new_text.contains("retries"));
}

#[test]
fn toml_array_of_tables_resolves_with_table_semantics() {
    let text = "[[servers]]\nhost = \"a\"\n[[servers]]\nhost = \"b\"\n";
    let Ok((doc, skel)) = load_toml(text) else {
        panic!("document must parse")
    };
    let Some(path) = parse_path("servers[1].host") else {
        panic!("path must parse")
    };
    let Ok(shown) = read_toml(&doc, &skel, &path) else {
        panic!("read must succeed")
    };
    assert_eq!(shown, "b");
}

#[test]
fn json_parse_error_carries_location() {
    let Err(e) = load_json("{\"a\": }") else {
        panic!("bad JSON must be refused")
    };
    let config_parser::errors::parse::ParseError::ForeignParseError { loc, snippet, .. } = &e
    else {
        panic!("expected the foreign parse failure")
    };
    assert_eq!(loc.line, 1);
    assert!(loc.column > 1);
    assert!(snippet.contains('^'));
    assert_eq!(ConfigError::Parse(e).exit_code(), 3);
}

#[test]
fn set_json_through_text_pipeline() {
    let text = "{\"network\":{\"timeout\":500}}";
    let Ok(new_text) = plan_json_set(text, "network.timeout", "900", false) else {
        panic!("set must succeed")
    };
    let Ok(doc) = load_json(&new_text) else {
        panic!("the new text must parse")
    };
    let Some(path) = parse_path("network.timeout") else {
        panic!("path must parse")
    };
    let Ok(shown) = read_json(&doc, &path) else {
        panic!("read must succeed")
    };
    assert_eq!(shown, "900");
}

#[test]
fn invalid_path_is_a_usage_error() {
    let text = "{\"a\":1}";
    let Err(e) = plan_json_set(text, "a..b", "1", false) else {
        panic!("a bad path must be refused")
    };
    assert!(matches!(&e, ConfigError::Usage(_)));
    assert_eq!(e.exit_code(), 2);
}

#[test]
fn index_out_of_bounds_reports_length() {
    let Ok(doc) = load_json("{\"xs\":[1,2]}") else {
        panic!("document must parse")
    };
    let Some(path) = parse_path("xs[5]") else {
        panic!("path must parse")
    };
    let Err(e) = read_json(&doc, &path) else {
        panic!("out-of-bounds must fail")
    };
    let ConfigError::Path(PathError::IndexOutOfBounds { index, len, .. }) = &e else {
        panic!("expected index out of bounds")
    };
    assert_eq!(*index, 5);
    assert_eq!(*len, 2);
}

#[test]
fn not_an_object_and_not_an_array() {
    let Ok(doc) = load_json("{\"a\":1,\"xs\":[1]}") else {
        panic!("document must parse")
    };
    let Some(p1) = parse_path("a.b") else { panic!() };
    let Err(e1) = read_json(&doc, &p1) else {
        panic!("key lookup on a scalar must fail")
    };
    assert!(matches!(&e1, ConfigError::Path(PathError::NotAnObject { .. })));
    let Some(p2) = parse_path("a[0]") else { panic!() };
    let Err(e2) = read_json(&doc, &p2) else {
        panic!("index lookup on a scalar must fail")
    };
    assert!(matches!(&e2, ConfigError::Path(PathError::NotAnArray { .. })));
}

#[test]
fn toml_delete_twice_fails_second_time() {
    let text = "[network]\ntimeout = 500\n";
    let Ok(once) = config_parser::persist::plan_toml_delete(text, "network.timeout") else {
        panic!("first delete must succeed")
    };
    let Err(e) = config_parser::persist::plan_toml_delete(&once, "network.timeout") else {
        panic!("second delete must fail")
    };
    assert!(matches!(
        &e,
        ConfigError::Path(PathError::KeyNotFound { .. })
    ));
    assert_eq!(e.exit_code(), 4);
}
