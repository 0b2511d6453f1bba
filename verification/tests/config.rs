use notnotsavebot::config::{parse_config_path, ConfigPathError, PathSegment};
use notnotsavebot::document::{get_value_at_path, has_room, set_value_at_path};
use notnotsavebot::json::{parse_json, Json};
use notnotsavebot::listing::{flatten_config_paths, sorted_config_entries, sorted_config_paths};
use notnotsavebot::settings::{
    answer_config_get, apply_env_overrides, config_file_text, default_format_for_path,
    detect_config_format, key_has_room, parse_cli_value, require_runtime_adapter, set_config_value,
    strip_jsonc_comment_lines, Config, ConfigAnswer, ConfigFormat,
};

fn json(text: &str) -> Json {
    parse_json(text).expect("valid JSON")
}

fn key(name: &str) -> PathSegment {
    PathSegment::Key(name.to_string())
}

#[test]
fn paths_are_read_step_by_step() {
    assert_eq!(
        parse_config_path("telegram.enabled").unwrap(),
        vec![key("telegram"), key("enabled")]
    );
    assert_eq!(
        parse_config_path("seed_users[12]").unwrap(),
        vec![key("seed_users"), PathSegment::Index(12)]
    );
    assert_eq!(
        parse_config_path("a[0][1]").unwrap(),
        vec![key("a"), PathSegment::Index(0), PathSegment::Index(1)]
    );
}

#[test]
fn texts_that_are_no_paths_are_refused() {
    assert_eq!(parse_config_path("").unwrap_err(), ConfigPathError::Empty);
    assert_eq!(parse_config_path(".a").unwrap_err(), ConfigPathError::Invalid);
    assert_eq!(parse_config_path("a[").unwrap_err(), ConfigPathError::Invalid);
    assert_eq!(parse_config_path("a[x]").unwrap_err(), ConfigPathError::Invalid);
    assert_eq!(parse_config_path("a[0].b").unwrap_err(), ConfigPathError::Invalid);
    assert_eq!(
        parse_config_path("a[99999999999999999999999]").unwrap_err(),
        ConfigPathError::IndexTooLarge
    );
}

#[test]
fn values_are_found_at_their_paths() {
    let document = json(r#"{"a":{"b":[1,{"c":true}]}}"#);
    let path = [key("a"), key("b"), PathSegment::Index(1), key("c")];
    assert_eq!(
        get_value_at_path(&document, &path).and_then(|value| value.as_bool()),
        Some(true)
    );
    assert!(get_value_at_path(&document, &[key("a"), PathSegment::Index(0)]).is_none());
    assert!(get_value_at_path(&document, &[key("x")]).is_none());
}

#[test]
fn values_that_are_put_are_found_and_others_stay() {
    let mut document = json(r#"{"a":{"b":1},"z":2}"#);
    let path = [key("a"), key("list"), PathSegment::Index(2)];
    set_value_at_path(&mut document, &path, json("\"x\"")).unwrap();
    assert_eq!(document, json(r#"{"a":{"b":1,"list":[null,null,"x"]},"z":2}"#));
    assert!(set_value_at_path(&mut document, &[PathSegment::Index(0)], Json::Null).is_err());
    set_value_at_path(&mut document, &[], Json::Bool(true)).unwrap();
    assert_eq!(document, Json::Bool(true));
    assert!(set_value_at_path(&mut document, &[key("a")], Json::Null).is_err());
}

#[test]
fn documents_are_listed_by_path() {
    let document = json(r#"{"b":[1,{"c":2}],"a":{},"e":{"f":"g"}}"#);
    assert_eq!(
        sorted_config_paths(&document),
        vec!["a", "b[0]", "b[1].c", "e.f"]
    );
    assert_eq!(
        flatten_config_paths(&json("[true,[]]"), Some("root")),
        vec!["root[0]", "root[1]"]
    );
    assert_eq!(flatten_config_paths(&json("3"), None), vec!["$"]);
    let entries = sorted_config_entries(&document, Some("x"));
    assert_eq!(entries[3].0, "x.e.f");
}

#[test]
fn formats_are_told_by_the_first_line_that_counts() {
    assert_eq!(detect_config_format("\n ; note\n// note\n { }"), ConfigFormat::Json);
    assert_eq!(detect_config_format("telegram\n  enabled = true"), ConfigFormat::Conl);
    assert_eq!(detect_config_format("; {\n"), ConfigFormat::Conl);
    assert_eq!(detect_config_format(""), ConfigFormat::Conl);
}

#[test]
fn comment_lines_are_left_out_of_json() {
    assert_eq!(
        strip_jsonc_comment_lines("// one\r\n{\n  // two\n  \"a\": 1 // three\n}\n"),
        "{\n  \"a\": 1 // three\n}"
    );
}

#[test]
fn formats_follow_the_extension() {
    assert_eq!(default_format_for_path("/etc/bot/config.json"), ConfigFormat::Json);
    assert_eq!(default_format_for_path("config.conl"), ConfigFormat::Conl);
    assert_eq!(default_format_for_path("json"), ConfigFormat::Conl);
    assert_eq!(default_format_for_path("a.json/config"), ConfigFormat::Conl);
}

#[test]
fn files_end_with_a_line_break() {
    assert_eq!(config_file_text(ConfigFormat::Json, "{}"), "{}\n");
    assert_eq!(config_file_text(ConfigFormat::Json, "{}\n"), "{}\n\n");
    assert_eq!(config_file_text(ConfigFormat::Conl, "a = 1\n"), "a = 1\n");
    assert_eq!(config_file_text(ConfigFormat::Conl, "a = 1"), "a = 1\n");
}

#[test]
fn values_on_the_command_line_are_json_or_text() {
    assert_eq!(parse_cli_value("true"), Json::Bool(true));
    assert_eq!(parse_cli_value("[1]"), json("[1]"));
    assert_eq!(parse_cli_value("hello there"), Json::Text("hello there".to_string()));
}

#[test]
fn settings_are_shown_and_changed_by_key() {
    let mut document = json(r#"{"telegram":{"bot_token":"","enabled":false}}"#);
    set_config_value(&mut document, "telegram.enabled", "true").unwrap();
    match answer_config_get(&document, false, Some("telegram.enabled")).unwrap() {
        ConfigAnswer::Value(value) => assert_eq!(value, &Json::Bool(true)),
        ConfigAnswer::Entries(_) => panic!("a single value was asked for"),
    }
    match answer_config_get(&document, true, Some("telegram")).unwrap() {
        ConfigAnswer::Entries(entries) => {
            let paths: Vec<&str> = entries.iter().map(|entry| entry.0.as_str()).collect();
            assert_eq!(paths, vec!["telegram.bot_token", "telegram.enabled"]);
        }
        ConfigAnswer::Value(_) => panic!("a listing was asked for"),
    }
    assert_eq!(
        answer_config_get(&document, false, Some("telegram.missing")).unwrap_err().message(),
        "config key not found: telegram.missing"
    );
    assert_eq!(
        answer_config_get(&document, false, None).unwrap_err().message(),
        "config get requires KEY or --all"
    );
    assert_eq!(
        answer_config_get(&document, false, Some("")).unwrap_err().message(),
        "config key cannot be empty"
    );
}

#[test]
fn the_last_index_is_no_place_in_an_array() {
    let last = format!("[{}]", usize::MAX);
    let mut document = json(r#"{"list":[],"telegram":{"enabled":false},"gap":null}"#);
    let in_list = parse_config_path(&format!("list{last}")).unwrap();
    assert!(!has_room(&document, &in_list));
    let in_gap = parse_config_path(&format!("gap{last}")).unwrap();
    assert!(!has_room(&document, &in_gap));
    let nested = parse_config_path(&format!("list[0]{last}")).unwrap();
    assert!(!has_room(&document, &nested));
    assert!(has_room(&document, &parse_config_path("list[3]").unwrap()));
    let in_object = parse_config_path(&format!("telegram{last}")).unwrap();
    assert!(has_room(&document, &in_object));
    let key = format!("telegram{last}");
    assert!(key_has_room(&document, &key));
    assert!(key_has_room(&document, ""));
    assert!(!key_has_room(&document, &format!("list{last}")));
    assert_eq!(
        set_config_value(&mut document, &key, "1").unwrap_err().message(),
        format!("config path traverses a non-array at index {}", usize::MAX)
    );
}

#[test]
fn the_token_of_the_environment_comes_first() {
    let mut config = Config::default();
    assert_eq!(config.database_path, "./notnotsavebot.sqlite");
    assert_eq!(config.download_dir, "./downloads");
    config.telegram.bot_token = "from file".to_string();
    apply_env_overrides(&mut config, None);
    assert_eq!(config.telegram.bot_token, "from file");
    apply_env_overrides(&mut config, Some("from environment".to_string()));
    assert_eq!(config.telegram.bot_token, "from environment");
}

#[test]
fn a_bot_without_an_adapter_does_not_run() {
    let mut config = Config::default();
    assert_eq!(
        require_runtime_adapter(&config).unwrap_err(),
        "no runtime adapters enabled; set telegram.enabled = true"
    );
    config.telegram.enabled = true;
    assert!(require_runtime_adapter(&config).is_ok());
}

#[test]
fn json_documents_keep_their_values() {
    let document = json(r#"{"n":-5,"big":18446744073709551615,"f":1.5,"s":"é","l":[null]}"#);
    assert_eq!(document.get("n").and_then(|j| j.as_i64()), Some(-5));
    assert_eq!(document.get("n").and_then(|j| j.as_u64()), None);
    assert_eq!(document.get("big").and_then(|j| j.as_u64()), Some(u64::MAX));
    assert_eq!(document.get("big").and_then(|j| j.as_i64()), None);
    assert_eq!(document.get("f").and_then(|j| j.as_u64()), None);
    assert_eq!(document.get("s").and_then(|j| j.as_text()), Some("é"));
    assert!(document.pointer("/l/0").is_some());
    assert!(document.pointer("/l/00").is_none());
    assert!(document.pointer("l").is_none());
    assert_eq!(document.pointer(""), Some(&document));
    assert_eq!(parse_json("{"), None);
    let odd = json(r#"{"a/b":{"~":1}}"#);
    assert_eq!(odd.pointer("/a~1b/~0").and_then(|j| j.as_u64()), Some(1));
}
