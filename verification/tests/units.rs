use config_parser::cli::Format;
use config_parser::errors::ConfigError;
use config_parser::errors::file_io::{io_reason_and_hint, FileIoError, IoFaultKind};
use config_parser::errors::not_supported::NotSupportedError;
use config_parser::errors::parse::{extract_snippet, offset_to_line_col, ConfigFormat,
    SourceLocation};
use config_parser::errors::path::PathError;
use config_parser::errors::usage::UsageError;
use config_parser::helpers::suggest;
use config_parser::kinds::TypeKind;
use config_parser::model::JsonNode;
use config_parser::ops::choose_format;
use config_parser::paths::{parse_path, PathSeg, ValuePath};
use config_parser::persist::{FileSim, PersistStep};
use config_parser::strutil::render_dec;
use config_parser::values::{infer_value, render_i64, ConfigValue};

#[test]
fn parse_render_round_trip_is_fixed_point() {
    let inputs = ["network.timeout", "servers[0].host", "a[7]", "x.y.z[3][0].k"];
    for input in inputs {
        let Some(p) = parse_path(input) else {
            panic!("path must parse")
        };
        let rendered = p.render();
        assert_eq!(rendered, input);
        let Some(p2) = parse_path(&rendered) else {
            panic!("rendered path must parse")
        };
        assert_eq!(p2.render(), rendered);
    }
}

#[test]
fn parse_canonicalises_leading_zero_indices() {
    let Some(p) = parse_path("a[007]") else {
        panic!("path must parse")
    };
    let rendered = p.render();
    assert_eq!(rendered, "a[7]");
    let Some(p2) = parse_path(&rendered) else {
        panic!("canonical path must parse")
    };
    assert_eq!(p2.render(), "a[7]");
}

#[test]
fn parse_rejects_malformed_paths() {
    for bad in ["", ".a", "a..b", "a[", "a[]", "a[x]", "a]b", "[0]"] {
        assert!(parse_path(bad).is_none(), "{bad:?} must be rejected");
    }
}

#[test]
fn parse_accepts_index_chains_and_digit_keys() {
    assert!(parse_path("a[0][1]").is_some());
    assert!(parse_path("123.456").is_some());
    assert!(parse_path("a[0].123").is_some());
}

#[test]
fn path_builders_match_parsing() {
    let mut p = ValuePath::new();
    p.push_key(String::from("servers"));
    p.push_index(0);
    p.push_key(String::from("host"));
    assert_eq!(p.render(), "servers[0].host");
    assert!(!p.is_empty());
    assert_eq!(p.len(), 3);
    p.pop();
    assert_eq!(p.render(), "servers[0]");
}

#[test]
fn decimal_rendering_is_exact() {
    assert_eq!(render_dec(0), "0");
    assert_eq!(render_dec(7), "7");
    assert_eq!(render_dec(12034), "12034");
    assert_eq!(render_dec(u64::MAX), "18446744073709551615");
    assert_eq!(render_i64(-1), "-1");
    assert_eq!(render_i64(i64::MIN), "-9223372036854775808");
    assert_eq!(render_i64(i64::MAX), "9223372036854775807");
}

#[test]
fn value_inference_covers_every_kind() {
    assert!(matches!(infer_value("true"), ConfigValue::Bool(true)));
    assert!(matches!(infer_value("false"), ConfigValue::Bool(false)));
    assert!(matches!(infer_value("null"), ConfigValue::Null));
    assert!(matches!(infer_value("42"), ConfigValue::Int(42)));
    assert!(matches!(infer_value("-42"), ConfigValue::Int(-42)));
    assert!(matches!(infer_value("9223372036854775807"), ConfigValue::Int(i64::MAX)));
    assert!(matches!(infer_value("-9223372036854775808"), ConfigValue::Int(i64::MIN)));
    assert!(matches!(
        infer_value("9223372036854775808"),
        ConfigValue::Uint(9223372036854775808)
    ));
    assert!(matches!(infer_value("1.5"), ConfigValue::FloatLit(s) if s == "1.5"));
    assert!(matches!(infer_value("-2.75e10"), ConfigValue::FloatLit(s) if s == "-2.75e10"));
    assert!(matches!(infer_value("1e3"), ConfigValue::FloatLit(s) if s == "1e3"));
    assert!(matches!(infer_value("localhost"), ConfigValue::Str(s) if s == "localhost"));
    assert!(matches!(infer_value("1.5.2"), ConfigValue::Str(s) if s == "1.5.2"));
    assert!(matches!(infer_value(""), ConfigValue::Str(s) if s.is_empty()));
}

#[test]
fn kind_names_are_stable() {
    assert_eq!(TypeKind::Null.name(), "null");
    assert_eq!(TypeKind::Bool.name(), "bool");
    assert_eq!(TypeKind::Int.name(), "int");
    assert_eq!(TypeKind::Uint.name(), "uint");
    assert_eq!(TypeKind::Float.name(), "float");
    assert_eq!(TypeKind::String.name(), "string");
    assert_eq!(TypeKind::Array.name(), "array");
    assert_eq!(TypeKind::Object.name(), "object");
    assert_eq!(TypeKind::Date.name(), "date");
    assert_eq!(TypeKind::Time.name(), "time");
    assert_eq!(TypeKind::DateTime.name(), "datetime");
    assert!(TypeKind::Array.is_container());
    assert!(TypeKind::Object.is_container());
    assert!(!TypeKind::Int.is_container());
}

#[test]
fn exit_codes_follow_the_taxonomy() {
    let usage = ConfigError::Usage(UsageError::MissingArgument {
        name: String::from("KEY_PATH"),
        example: String::from("network.timeout"),
    });
    assert_eq!(usage.exit_code(), 2);
    let io = ConfigError::FileIO(FileIoError::read_failed("a.json", IoFaultKind::NotFound));
    assert_eq!(io.exit_code(), 3);
    let path = ConfigError::Path(PathError::EmptyPath);
    assert_eq!(path.exit_code(), 4);
    let ns = ConfigError::NotSupported(NotSupportedError::command(
        String::from("watch"),
        String::from("Not in this version."),
    ));
    assert_eq!(ns.exit_code(), 6);
}

#[test]
fn io_reasons_and_hints_are_fixed() {
    let (reason, hint) = io_reason_and_hint(IoFaultKind::NotFound, "conf.json");
    assert_eq!(reason, "No such file or directory");
    assert_eq!(hint, "Check the path or create it first: conf.json");
    let (reason, hint) = io_reason_and_hint(IoFaultKind::PermissionDenied, "conf.json");
    assert_eq!(reason, "Permission denied");
    assert_eq!(hint, "Check file permissions or run with appropriate rights.");
    let (reason, _) = io_reason_and_hint(
        IoFaultKind::Other(String::from("device timeout")),
        "conf.json",
    );
    assert_eq!(reason, "device timeout");
}

#[test]
fn not_supported_constructors_and_transience() {
    let v = NotSupportedError::version(
        String::from("toml_edit"),
        String::from("0.1"),
        String::from("0.2"),
        String::from("Upgrade."),
    );
    assert!(v.is_potentially_transient());
    let f = NotSupportedError::feature(String::from("schema-validation"), String::from("No."));
    assert!(!f.is_potentially_transient());
}

#[test]
fn offset_to_line_col_counts_newlines() {
    let src = "ab\ncd\nef";
    assert_eq!(offset_to_line_col(src, 0), (1, 1));
    assert_eq!(offset_to_line_col(src, 2), (1, 3));
    assert_eq!(offset_to_line_col(src, 3), (2, 1));
    assert_eq!(offset_to_line_col(src, 4), (2, 2));
    assert_eq!(offset_to_line_col(src, 7), (3, 2));
    assert_eq!(offset_to_line_col(src, 99), (3, 3));
}

#[test]
fn snippet_draws_a_caret_under_the_column() {
    let src = "alpha\nbeta = oops\ngamma";
    let snip = extract_snippet(src, 2, 8);
    assert_eq!(snip, "beta = oops\n       ^");
    let snip1 = extract_snippet(src, 1, 1);
    assert_eq!(snip1, "alpha\n^");
    assert_eq!(extract_snippet(src, 9, 1), "");
}

#[test]
fn source_location_builders() {
    let loc = SourceLocation::new(3, 9);
    assert_eq!(loc.line, 3);
    assert_eq!(loc.column, 9);
    assert!(loc.file.is_none());
    let loc = loc.with_file(String::from("conf.toml"));
    assert_eq!(loc.file.as_deref(), Some("conf.toml"));
}

#[test]
fn choose_format_prefers_flags_and_detects_conflicts() {
    assert!(matches!(choose_format("a.json", None), Ok(ConfigFormat::Json)));
    assert!(matches!(choose_format("a.toml", None), Ok(ConfigFormat::Toml)));
    assert!(matches!(
        choose_format("a.conf", Some(ConfigFormat::Toml)),
        Ok(ConfigFormat::Toml)
    ));
    assert!(matches!(
        choose_format("a.json", Some(ConfigFormat::Json)),
        Ok(ConfigFormat::Json)
    ));
    assert!(matches!(
        choose_format("a.json", Some(ConfigFormat::Toml)),
        Err(UsageError::ConflictingFlags { .. })
    ));
    assert!(matches!(
        choose_format("a.conf", None),
        Err(UsageError::MissingFlag { .. })
    ));
}

#[test]
fn cli_format_maps_to_config_format() {
    assert!(matches!(Format::Json.to_config_format(), ConfigFormat::Json));
    assert!(matches!(Format::Toml.to_config_format(), ConfigFormat::Toml));
}

#[test]
fn suggestions_pick_the_closest_key() {
    let hay = vec![
        String::from("timeout"),
        String::from("retries"),
        String::from("host"),
    ];
    let Some(s) = suggest("timeot", &hay) else {
        panic!("a candidate must be offered")
    };
    assert_eq!(s, "timeout");
    assert!(suggest("anything", &Vec::new()).is_none());
}

#[test]
fn empty_path_is_refused_by_navigation() {
    let doc = JsonNode::Null;
    let empty = ValuePath::new();
    let r = config_parser::navigate::get_json_at_path(&doc, &empty);
    assert!(matches!(r, Err(PathError::EmptyPath)));
}

#[test]
fn atomic_replace_interrupted_before_rename_keeps_original() {
    let original = String::from("{\"network\":{\"timeout\":500}}");
    let new_text = "{\"network\":{\"timeout\":900}}";
    // Fault injection: stop after the temporary file is written, before
    // the rename.
    let mut sim = FileSim::new(original.clone());
    sim.step(&PersistStep::CreateTemp, new_text);
    sim.step(&PersistStep::WriteTemp, new_text);
    assert_eq!(sim.target, original);
    // The completed protocol shows exactly the new text.
    let mut sim2 = FileSim::new(original.clone());
    sim2.step(&PersistStep::CreateTemp, new_text);
    sim2.step(&PersistStep::WriteTemp, new_text);
    sim2.step(&PersistStep::Rename, new_text);
    assert_eq!(sim2.target, new_text);
    assert!(sim2.temp.is_none());
}

#[test]
fn usage_missing_flag_renders_on_one_line() {
    let (_, hint) = io_reason_and_hint(IoFaultKind::InvalidInput, "x");
    assert!(!hint.contains('\n'));
    let e = UsageError::MissingFlag {
        flag: String::from("--format <json|toml>"),
        hint: String::from("Use --format when the file extension is not json or toml."),
    };
    let UsageError::MissingFlag { flag, hint } = &e else {
        panic!()
    };
    assert!(!flag.contains('\n') && !hint.contains('\n'));
}

#[test]
fn toml_datetime_kinds_are_distinguished() {
    let text = "a = 2024-01-02\nb = 07:30:00\nc = 2024-01-02T07:30:00Z\n";
    let Ok((_, skel)) = config_parser::ops::load_toml(text) else {
        panic!("document must parse")
    };
    for (path_str, kind) in [("a", TypeKind::Date), ("b", TypeKind::Time), ("c", TypeKind::DateTime)] {
        let Some(path) = parse_path(path_str) else { panic!() };
        let Ok(at) = config_parser::navigate_toml::get_toml_at_path(&skel, &path) else {
            panic!("resolution must succeed")
        };
        assert_eq!(at.type_kind(), kind);
    }
}

#[test]
fn toml_cursor_as_value_distinguishes_tables() {
    let text = "[[servers]]\nhost = \"a\"\n";
    let Ok((_, skel)) = config_parser::ops::load_toml(text) else {
        panic!("document must parse")
    };
    let Some(p) = parse_path("servers[0]") else { panic!() };
    let Ok(at) = config_parser::navigate_toml::get_toml_at_path(&skel, &p) else {
        panic!("resolution must succeed")
    };
    // An array-of-tables element is a table cursor, not a value.
    assert!(at.as_value().is_none());
    assert_eq!(at.type_kind(), TypeKind::Object);
    let Some(p2) = parse_path("servers[0].host") else { panic!() };
    let Ok(at2) = config_parser::navigate_toml::get_toml_at_path(&skel, &p2) else {
        panic!("resolution must succeed")
    };
    assert!(at2.as_value().is_some());
}

#[test]
fn toml_list_names_children_in_order() {
    let text = "[network]\ntimeout = 500\nretries = 3\n";
    let Ok((_, skel)) = config_parser::ops::load_toml(text) else {
        panic!("document must parse")
    };
    let Some(path) = parse_path("network") else { panic!() };
    let Ok(children) = config_parser::ops::list_toml(&skel, &path) else {
        panic!("list must succeed")
    };
    let names: Vec<String> = children
        .iter()
        .map(|c| match c {
            PathSeg::Key(k) => k.clone(),
            PathSeg::Index(i) => format!("[{i}]"),
        })
        .collect();
    assert_eq!(names, ["timeout", "retries"]);
}

#[test]
fn path_error_messages_are_one_line_and_exact() {
    let doc = {
        let Ok(n) = config_parser::ops::load_json("{\"network\":{\"timeout\":500}}") else {
            panic!("document must parse")
        };
        n
    };
    let Some(path) = parse_path("network.missing") else { panic!() };
    let Err(e) = config_parser::navigate::get_json_at_path(&doc, &path) else {
        panic!("resolution must fail")
    };
    assert_eq!(e.message(), "Key not found at network: missing key `missing`");
    assert!(!e.message().contains('\n'));
    let Ok(xs) = config_parser::ops::load_json("{\"xs\":[1,2]}") else { panic!() };
    let Some(p2) = parse_path("xs[9]") else { panic!() };
    let Err(e2) = config_parser::navigate::get_json_at_path(&xs, &p2) else {
        panic!("resolution must fail")
    };
    assert_eq!(e2.message(), "Index out of bounds at xs: index 9 >= len 2");
}

#[test]
fn suggestion_ties_go_to_the_first_candidate() {
    let hay = vec![String::from("ab"), String::from("ac")];
    let Some(s) = suggest("ad", &hay) else {
        panic!("a candidate must be offered")
    };
    assert_eq!(s, "ab");
}

#[test]
fn float_inference_requires_a_leading_digit_run() {
    assert!(matches!(infer_value(".5"), ConfigValue::Str(_)));
    assert!(matches!(infer_value("5."), ConfigValue::Str(_)));
    assert!(matches!(infer_value("1e"), ConfigValue::Str(_)));
    assert!(matches!(infer_value("-"), ConfigValue::Str(_)));
    assert!(matches!(infer_value("1.0e+2"), ConfigValue::FloatLit(_)));
}

#[test]
fn json_read_renders_containers_as_json() {
    let Ok(doc) = config_parser::ops::load_json("{\"xs\":[1,2]}") else {
        panic!("document must parse")
    };
    let Some(path) = parse_path("xs") else { panic!() };
    let Ok(shown) = config_parser::ops::read_json(&doc, &path) else {
        panic!("read must succeed")
    };
    let Ok(_) = config_parser::ops::load_json(&shown) else {
        panic!("the rendered container must itself be JSON")
    };
    assert!(shown.contains('['));
}

#[test]
fn type_error_messages_are_exact() {
    let doc = {
        let Ok(n) = config_parser::ops::load_json("{\"network\":{\"timeout\":500}}") else {
            panic!("document must parse")
        };
        n
    };
    let mut doc = doc;
    let Some(path) = parse_path("network.timeout") else { panic!() };
    let Err(e) = config_parser::ops::set_json(&mut doc, &path, infer_value("fast"), false)
    else {
        panic!("a kind mismatch must fail")
    };
    let ConfigError::Type(te) = &e else { panic!("expected a type error") };
    assert_eq!(
        te.message(),
        "Type mismatch at network.timeout: expected int, found string"
    );
    let allowed = vec![String::from("on"), String::from("off")];
    let inv = config_parser::errors::value_type::TypeError::invalid_enum(
        {
            let Some(p) = parse_path("mode") else { panic!() };
            p
        },
        String::from("auto"),
        allowed,
    );
    assert_eq!(
        inv.message(),
        "Invalid enum variant at mode: found auto; allowed: [\"on\", \"off\"]"
    );
}

#[test]
fn config_error_messages_cover_every_category() {
    let usage = ConfigError::Usage(UsageError::InvalidPathSyntax {
        input: String::from("a..b"),
        example: String::from("network.timeout"),
    });
    assert_eq!(
        usage.message(),
        "UsageError: invalid key-path syntax: 'a..b'. Example: network.timeout"
    );
    let io = ConfigError::FileIO(FileIoError::read_failed("conf.json", IoFaultKind::NotFound));
    assert_eq!(
        io.message(),
        "FileIoError: could not read conf.json: No such file or directory. \
         Check the path or create it first: conf.json"
    );
    let Err(pe) = config_parser::ops::load_json("{\"a\": }") else {
        panic!("bad JSON must be refused")
    };
    let parse = ConfigError::Parse(pe);
    let msg = parse.message();
    assert!(msg.starts_with("Json parse error at 1:"));
    assert!(msg.contains('\n') && msg.ends_with('^'));
    let ns = ConfigError::NotSupported(NotSupportedError::combination(
        String::from("json with --watch"),
        String::from("Not yet."),
    ));
    assert_eq!(
        ns.message(),
        "This combination is not supported: json with --watch. Not yet."
    );
}

#[test]
fn usage_invalid_choice_lists_the_options() {
    let e = UsageError::InvalidChoice {
        provided: String::from("yaml"),
        flag: String::from("--format"),
        valid: vec![String::from("json"), String::from("toml")],
    };
    assert_eq!(
        e.message(),
        "UsageError: invalid value 'yaml' for --format. \
         Valid options: [\"json\", \"toml\"]. Example: --format json"
    );
}

#[test]
fn source_location_renders_with_optional_file() {
    let loc = SourceLocation::new(2, 7);
    assert_eq!(loc.render(), "2:7");
    let loc = SourceLocation::new(2, 7).with_file(String::from("conf.toml"));
    assert_eq!(loc.render(), "conf.toml:2:7");
}

#[test]
fn offset_to_line_col_counts_bytes_not_characters() {
    // A two-byte character before the newline: the offset is a byte
    // offset, so offset 2 still sits on the first line, after one
    // character.
    let src = "\u{e9}\nx";
    assert_eq!(offset_to_line_col(src, 0), (1, 1));
    assert_eq!(offset_to_line_col(src, 2), (1, 2));
    assert_eq!(offset_to_line_col(src, 3), (2, 1));
    assert_eq!(offset_to_line_col(src, 4), (2, 2));
}
