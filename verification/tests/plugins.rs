use whalenest::json::Json;
use whalenest::plugins::parse_manifest;
use whalenest::plugins::{
    bundle_list, determine_plugin_source, is_core_plugin, parse_outdated_json, read_profile_bundles,
    set_all_plugins_enabled_in, set_plugin_enabled_in, PluginSource,
};
use whalenest::plugins::{edit_all_plugins_enabled, edit_plugin_enabled, outdated_of, profile_bundles_of};

fn doc(text: &str) -> Json {
    parse_manifest(text).unwrap()
}

#[test]
fn reads_web_profile_bundles() {
    let text = r#"{
  "name": "dsh-profile-web",
  "dependencies": { "dsh-x": "^0.1" },
  "dsh": { "profile": { "bundles": ["@deepseek-ai/dsh-base", "@deepseek-ai/dsh-web-app", "dsh-skin-material-you"] } }
}"#;
    let (bundles, is_web) = read_profile_bundles(text);
    assert!(is_web);
    assert!(bundles.contains(&"@deepseek-ai/dsh-web-app".to_string()));
    assert_eq!(bundles.iter().filter(|b| !b.starts_with("@deepseek-ai/")).count(), 1);
}

#[test]
fn non_web_profile_is_not_web_type() {
    let text = r#"{
  "dependencies": {},
  "dsh": { "profile": { "bundles": ["@deepseek-ai/dsh-base", "dsh-skin-material-you"] } }
}"#;
    let (_, is_web) = read_profile_bundles(text);
    assert!(!is_web);
}

#[test]
fn sets_plugin_enabled_in_document() {
    let text = r#"{
  "name": "dsh-profile-web",
  "dependencies": {
    "dsh-plugin-foo": "1.0.0"
  },
  "dsh": { "profile": { "bundles": ["@deepseek-ai/dsh-base"] } }
}"#;
    let enabled = set_plugin_enabled_in(doc(text), "dsh-plugin-foo", true).unwrap().unwrap();
    let bundles = bundle_list(&enabled);
    assert!(bundles.iter().any(|b| b == "dsh-plugin-foo"));

    let disabled = set_plugin_enabled_in(enabled, "dsh-plugin-foo", false).unwrap().unwrap();
    let bundles = bundle_list(&disabled);
    assert!(!bundles.iter().any(|b| b == "dsh-plugin-foo"));
    assert!(bundles.iter().any(|b| b == "@deepseek-ai/dsh-base"));

    assert!(set_plugin_enabled_in(disabled, "@deepseek-ai/dsh-base", false).is_err());
}

#[test]
fn sets_all_plugins_enabled_in_document() {
    let text = r#"{
  "name": "dsh-profile-web",
  "dependencies": {
    "dsh-plugin-1": "1.0.0",
    "dsh-plugin-2": "1.0.0",
    "@deepseek-ai/dsh-base": "1.0.0"
  },
  "dsh": { "profile": { "bundles": ["@deepseek-ai/dsh-base", "dsh-plugin-1"] } }
}"#;
    let (changed, after) = set_all_plugins_enabled_in(doc(text), false).unwrap();
    assert_eq!(changed, 1);
    let after = after.unwrap();
    let bundles = bundle_list(&after);
    assert_eq!(bundles.len(), 1);
    assert_eq!(bundles[0], "@deepseek-ai/dsh-base");

    let (changed, after) = set_all_plugins_enabled_in(after, true).unwrap();
    assert_eq!(changed, 2);
    let bundles = bundle_list(&after.unwrap());
    assert_eq!(bundles.len(), 3);
    assert!(bundles.iter().any(|b| b == "dsh-plugin-1"));
    assert!(bundles.iter().any(|b| b == "dsh-plugin-2"));
    assert!(bundles.iter().any(|b| b == "@deepseek-ai/dsh-base"));
}

#[test]
fn enabling_twice_changes_nothing_more() {
    let text = r#"{"dsh": {"profile": {"bundles": []}}}"#;
    let once = set_plugin_enabled_in(doc(text), "p", true).unwrap().unwrap();
    assert!(set_plugin_enabled_in(once, "p", true).unwrap().is_none());
}

#[test]
fn non_list_bundles_is_an_error_for_batch() {
    let r = set_all_plugins_enabled_in(doc(r#"{"dsh":{"profile":{"bundles":"x"}}}"#), true);
    assert_eq!(r.unwrap_err(), "profile 缺少 dsh.profile.bundles 字段");
    let (n, changed) = set_all_plugins_enabled_in(doc("{}"), true).unwrap();
    assert_eq!(n, 0);
    assert!(changed.is_none());
}

#[test]
fn core_plugins_and_sources() {
    assert!(is_core_plugin("@deepseek-ai/dsh-base"));
    assert!(is_core_plugin("@deepseek-harness-tui/x"));
    assert!(!is_core_plugin("dsh-x"));
    assert_eq!(determine_plugin_source("github:a/b"), PluginSource::Git);
    assert_eq!(determine_plugin_source("git+https://x"), PluginSource::Git);
    assert_eq!(determine_plugin_source(" file:../x "), PluginSource::Local);
    assert_eq!(determine_plugin_source("workspace:*"), PluginSource::Local);
    assert_eq!(determine_plugin_source("^1.0.0"), PluginSource::Npm);
    assert_eq!(determine_plugin_source("  "), PluginSource::Unknown);
    assert_eq!(PluginSource::Npm.as_str(), "npm");
    assert_eq!(PluginSource::Unknown.as_str(), "unknown");
}

#[test]
fn parses_empty_json_as_no_outdated() {
    assert!(parse_outdated_json("{}").is_empty());
}

#[test]
fn parses_whitespace_as_no_outdated() {
    assert!(parse_outdated_json("   \n  ").is_empty());
}

#[test]
fn parses_outdated_packages_from_json() {
    let out = r#"{"dsh-ast-edit-tool":{"current":"0.1.1","latest":"0.2.0"},"dsh-better-sidebar":{"current":"0.18.0","latest":"0.19.0"}}"#;
    let got = parse_outdated_json(out);
    assert_eq!(
        got,
        vec![
            ("dsh-ast-edit-tool".to_string(), "0.2.0".to_string()),
            ("dsh-better-sidebar".to_string(), "0.19.0".to_string())
        ]
    );
}

#[test]
fn malformed_json_is_empty() {
    assert!(parse_outdated_json("not json").is_empty());
}

#[test]
fn non_object_json_is_empty() {
    assert!(parse_outdated_json("[1,2,3]").is_empty());
}

#[test]
fn parses_latest_versions_for_every_package() {
    let out = r#"{"a":{"current":"1","latest":"2"},"b":{"current":"1","latest":"1"}}"#;
    let got = parse_outdated_json(out);
    assert_eq!(
        got,
        vec![("a".to_string(), "2".to_string()), ("b".to_string(), "1".to_string())]
    );
}

#[test]
fn sets_plugin_enabled_and_disabled_at_path() {
    let text = r#"{
  "name": "dsh-profile-web",
  "dependencies": {
    "dsh-plugin-foo": "1.0.0"
  },
  "dsh": { "profile": { "bundles": ["@deepseek-ai/dsh-base"] } }
}"#;
    let text = edit_plugin_enabled(text, "dsh-plugin-foo", true).unwrap().unwrap().unwrap();
    let (bundles, _) = read_profile_bundles(&text);
    assert!(bundles.iter().any(|b| b == "dsh-plugin-foo"));

    let text = edit_plugin_enabled(&text, "dsh-plugin-foo", false).unwrap().unwrap().unwrap();
    let (bundles, _) = read_profile_bundles(&text);
    assert!(!bundles.iter().any(|b| b == "dsh-plugin-foo"));
    assert!(bundles.iter().any(|b| b == "@deepseek-ai/dsh-base"));

    assert!(edit_plugin_enabled(&text, "@deepseek-ai/dsh-base", false).unwrap().is_err());
}

#[test]
fn sets_all_plugins_enabled_and_disabled_at_path() {
    let text = r#"{
  "name": "dsh-profile-web",
  "dependencies": {
    "dsh-plugin-1": "1.0.0",
    "dsh-plugin-2": "1.0.0",
    "@deepseek-ai/dsh-base": "1.0.0"
  },
  "dsh": { "profile": { "bundles": ["@deepseek-ai/dsh-base", "dsh-plugin-1"] } }
}"#;
    let (changed, text) = edit_all_plugins_enabled(text, false).unwrap().unwrap();
    assert_eq!(changed, 1);
    let text = text.unwrap();
    let (bundles, _) = read_profile_bundles(&text);
    assert_eq!(bundles.len(), 1);
    assert_eq!(bundles[0], "@deepseek-ai/dsh-base");

    let (changed, text) = edit_all_plugins_enabled(&text, true).unwrap().unwrap();
    assert_eq!(changed, 2);
    let (bundles, _) = read_profile_bundles(&text.unwrap());
    assert_eq!(bundles.len(), 3);
    assert!(bundles.iter().any(|b| b == "dsh-plugin-1"));
    assert!(bundles.iter().any(|b| b == "dsh-plugin-2"));
    assert!(bundles.iter().any(|b| b == "@deepseek-ai/dsh-base"));
}

#[test]
fn edits_report_unparsable_and_unwritable_manifests() {
    let e = edit_plugin_enabled("not json", "p", true).unwrap().unwrap_err();
    assert!(e.starts_with("解析 package.json 失败: "));
    assert!(e.len() > "解析 package.json 失败: ".len());
    let e = edit_all_plugins_enabled("{", true).unwrap().unwrap_err();
    assert!(e.starts_with("解析 package.json 失败: "));
    assert!(edit_plugin_enabled(r#"{"dsh": "x"}"#, "p", true).is_none());
    assert!(edit_all_plugins_enabled(r#"{"dsh": {"profile": 3}}"#, false).is_none());
    assert!(edit_plugin_enabled("[1]", "p", true).is_none());
    // a core plugin is refused before the text is even read
    assert_eq!(
        edit_plugin_enabled("not json", "@deepseek-ai/dsh-base", true).unwrap().unwrap_err(),
        "官方核心插件不能启用/禁用"
    );
    // already in the requested state: nothing to write
    assert!(edit_plugin_enabled(r#"{"dsh":{"profile":{"bundles":["p"]}}}"#, "p", true).unwrap().unwrap().is_none());
    assert_eq!(edit_all_plugins_enabled("{}", true).unwrap().unwrap(), (0, None));
    // a null manifest gets the whole path created
    let text = edit_plugin_enabled("null", "p", true).unwrap().unwrap().unwrap();
    assert_eq!(read_profile_bundles(&text).0, vec!["p".to_string()]);
}

#[test]
fn reads_bundles_and_outdated_from_parsed_documents() {
    let d = doc(r#"{"dsh":{"profile":{"bundles":["x", 3, "org/dsh-web-app"]}}}"#);
    let (b, web) = profile_bundles_of(&d);
    assert_eq!(b, vec!["x".to_string(), "org/dsh-web-app".to_string()]);
    assert!(web);
    let (b, web) = profile_bundles_of(&doc("[]"));
    assert!(b.is_empty() && !web);
    let r = outdated_of(&doc(r#"{"p":{"latest":"2"},"q":{}}"#));
    assert_eq!(r, vec![("p".to_string(), "2".to_string()), ("q".to_string(), String::new())]);
    assert!(outdated_of(&doc("[1]")).is_empty());
}
