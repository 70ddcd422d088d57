use whalenest::state::{
    config_path, dsh_home, encode_session_dir_name, extract_legacy_cwd, is_profile_dir, join_path_str,
    json_cwd, legacy_json_path, new_profile_manifest, new_profile_manifest_text, new_profile_name,
    user_plugins, whale_nest_config_dir, AppState, ProfileInfo, DEFAULT_PORT, DEFAULT_PROFILE,
};
use whalenest::plugins::parse_manifest;
use whalenest::state::{default_cwd, sort_profiles};
use whalenest::tray_state;

#[test]
fn state_default_port_is_3080() {
    let state = AppState::default();
    assert_eq!(state.preferred_port, 3080);
    assert_eq!(state.active_profile, "web");
    let tray = tray_state::AppState::new("/home/u".to_string());
    assert_eq!(tray.preferred_port, 3080);
}

#[test]
fn migrates_legacy_cwd_to_web() {
    let text = "cwd = \"/tmp/old\"\npreferred_port = 3080\n";
    let mut state = AppState::default();
    state.migrate_legacy_cwd(text);
    assert_eq!(state.profile_cwds.get("web").unwrap(), "/tmp/old");
}

#[test]
fn does_not_override_existing_web_cwd() {
    let text = "cwd = \"/tmp/old\"\n";
    let mut state = AppState::default();
    state.profile_cwds.insert("web".into(), "/tmp/new".to_string());
    state.migrate_legacy_cwd(text);
    assert_eq!(state.profile_cwds.get("web").unwrap(), "/tmp/new");
}

#[test]
fn encodes_ascii_cwd_like_dsh() {
    assert_eq!(
        encode_session_dir_name("/home/huang/Personal/Dev/Code/melon"),
        "--home-huang-Personal-Dev-Code-melon--"
    );
}

#[test]
fn encodes_non_ascii_as_utf16_hex() {
    // 项=U+9879 目=U+76EE 中=U+4E2D
    assert_eq!(encode_session_dir_name("/a/项目/中"), "--a-~9879~76EE-~4E2D--");
}

#[test]
fn profile_cwd_falls_back_to_home() {
    let state = AppState::default();
    let cwd = state.profile_cwd("missing", "/home/someone");
    assert!(!cwd.is_empty());
    assert_eq!(cwd, "/home/someone");
}

#[test]
fn profile_cwd_prefers_remembered_dir_and_skips_empty() {
    let mut state = AppState::default();
    state.profile_cwds.insert("work".into(), "/srv/work".into());
    state.profile_cwds.insert("blank".into(), String::new());
    assert_eq!(state.profile_cwd("work", "/home/x"), "/srv/work");
    assert_eq!(state.profile_cwd("blank", "/home/x"), "/home/x");
}

#[test]
fn encodes_backslashes_keeps_safe_punctuation_and_trims_dashes() {
    assert_eq!(encode_session_dir_name("C:\\proj\\a_b.c-d\\"), "--C~003A-proj-a_b.c-d--");
    assert_eq!(encode_session_dir_name("/"), "----");
    assert_eq!(encode_session_dir_name(""), "----");
    assert_eq!(encode_session_dir_name("-x-"), "--x--");
    assert_eq!(encode_session_dir_name("/tmp/my dir"), "--tmp-my~0020dir--");
}

#[test]
fn encodes_astral_chars_as_surrogate_pairs() {
    // U+1F600 is D83D DE00 in UTF-16.
    assert_eq!(encode_session_dir_name("/x/😀"), "--x-~D83D~DE00--");
}

#[test]
fn legacy_cwd_read_from_toml_or_json() {
    assert_eq!(extract_legacy_cwd("cwd = \"/a\"\n").as_deref(), Some("/a"));
    assert_eq!(extract_legacy_cwd("{\"cwd\": \"/b\", \"autostart\": true}").as_deref(), Some("/b"));
    assert_eq!(extract_legacy_cwd("preferred_port = 3080\n"), None);
    assert_eq!(extract_legacy_cwd("{\"cwd\": 3}"), None);
    assert_eq!(extract_legacy_cwd("not a config ["), None);
}

#[test]
fn json_cwd_reads_string_member_only() {
    assert_eq!(json_cwd(&parse_manifest("{\"cwd\":\"/c\"}")).as_deref(), Some("/c"));
    assert_eq!(json_cwd(&parse_manifest("[\"cwd\"]")), None);
    assert_eq!(json_cwd(&Err("bad".to_string())), None);
}

#[test]
fn migration_without_legacy_cwd_leaves_map_alone() {
    let mut state = AppState::default();
    state.migrate_legacy_cwd("preferred_port = 4000\n");
    assert!(state.profile_cwds.is_empty());
    state.adopt_legacy_cwd(Some("/old".into()));
    state.adopt_legacy_cwd(Some("/other".into()));
    assert_eq!(state.profile_cwds.get("web").unwrap(), "/old");
}

#[test]
fn forgetting_a_profile_falls_back_to_web() {
    let mut state = AppState::default();
    state.active_profile = "work".into();
    state.profile_cwds.insert("work".into(), "/w".into());
    state.profile_cwds.insert("web".into(), "/h".into());
    assert!(state.forget_profile("work"));
    assert_eq!(state.active_profile, DEFAULT_PROFILE);
    assert!(!state.profile_cwds.contains_key("work"));
    assert!(!state.forget_profile("web"));
    assert_eq!(state.profile_cwds.get("web").unwrap(), "/h");
}

#[test]
fn forgetting_inactive_profile_keeps_active() {
    let mut state = AppState::default();
    state.active_profile = "a".into();
    assert!(state.forget_profile("b"));
    assert_eq!(state.active_profile, "a");
}

#[test]
fn new_profile_names_are_checked() {
    assert_eq!(new_profile_name("  dev  ").unwrap(), "dev");
    assert_eq!(new_profile_name("   ").unwrap_err(), "名称不能为空");
    assert_eq!(new_profile_name("a/b").unwrap_err(), "名称不能包含路径分隔符");
    assert_eq!(new_profile_name("a\\b").unwrap_err(), "名称不能包含路径分隔符");
    assert_eq!(new_profile_name(" web ").unwrap_err(), "`web` 是保留名称，不能用作新 profile");
}

#[test]
fn new_profile_manifest_has_template_bundles() {
    let text = new_profile_manifest_text("dev").unwrap();
    let v: serde_json::Value = serde_json::from_str(&text).unwrap();
    assert_eq!(v["name"], "dsh-profile-dev");
    assert_eq!(v["private"], true);
    assert!(v["dependencies"].as_object().unwrap().is_empty());
    let b = v["dsh"]["profile"]["bundles"].as_array().unwrap();
    assert_eq!(b.len(), 2);
    assert_eq!(b[0], "@deepseek-ai/dsh-base");
    assert_eq!(b[1], "@deepseek-ai/dsh-web-app");
    let doc = new_profile_manifest("dev");
    let (bundles, is_web) = whalenest::plugins::read_profile_bundles(&text);
    assert!(is_web);
    assert_eq!(bundles, whalenest::plugins::bundle_list(&doc));
}

#[test]
fn profile_dirs_skip_node_modules_and_hidden() {
    assert!(is_profile_dir("web"));
    assert!(!is_profile_dir("node_modules"));
    assert!(!is_profile_dir(".cache"));
    assert!(is_profile_dir("a.b"));
}

#[test]
fn user_plugins_drop_official_bundles() {
    let b = vec![
        "@deepseek-ai/dsh-base".to_string(),
        "dsh-skin".to_string(),
        "@deepseek-ai/dsh-web-app".to_string(),
        "@other/x".to_string(),
    ];
    assert_eq!(user_plugins(&b), vec!["dsh-skin".to_string(), "@other/x".to_string()]);
}

#[test]
fn paths_are_joined_like_path_join() {
    assert_eq!(join_path_str("/a", "b"), "/a/b");
    assert_eq!(join_path_str("/a/", "b"), "/a/b");
    assert_eq!(join_path_str("", "b"), "b");
    assert_eq!(config_path("/home/u/.config/whale-nest"), "/home/u/.config/whale-nest/config.toml");
    assert_eq!(whale_nest_config_dir(Some("/home/u"), "/tmp"), "/home/u/.config/whale-nest");
    assert_eq!(whale_nest_config_dir(None, "/tmp"), "/tmp/whale-nest");
    assert_eq!(dsh_home(Some("/opt/dsh"), Some("/home/u")), "/opt/dsh");
    assert_eq!(dsh_home(None, Some("/home/u")), "/home/u/.dsh");
    assert_eq!(dsh_home(None, None), ".dsh");
    assert_eq!(
        legacy_json_path(None, Some("/home/u"), "/tmp"),
        "/home/u/.config/dev.whalenest.desktop/config.json"
    );
    assert_eq!(legacy_json_path(Some("/x"), Some("/home/u"), "/tmp"), "/x/dev.whalenest.desktop/config.json");
    assert_eq!(legacy_json_path(None, None, "/tmp"), "/tmp/dev.whalenest.desktop/config.json");
}

#[test]
fn profile_info_reports_web_type() {
    let p = ProfileInfo {
        name: "web".into(),
        path: "/d/profiles/web".into(),
        is_web_type: true,
        plugins: vec![],
        plugin_count: 0,
        cwd: "/tmp".into(),
        session_count: 0,
        last_session_time: None,
    };
    assert!(p.is_web());
    assert_eq!(DEFAULT_PORT, 3080);
}

#[test]
fn migration_twice_is_like_once() {
    let mut state = AppState::default();
    state.profile_cwds.insert("work".into(), "/w".into());
    state.migrate_legacy_cwd("cwd = \"/first\"\n");
    state.migrate_legacy_cwd("cwd = \"/second\"\n");
    assert_eq!(state.profile_cwds.get("web").unwrap(), "/first");
    assert_eq!(state.profile_cwds.get("work").unwrap(), "/w");
    assert_eq!(state.profile_cwds.len(), 2);
}

#[test]
fn config_file_is_created_before_opening_when_missing() {
    let (path, write_defaults) = whalenest::state::open_config_file("/h/.config/whale-nest", false);
    assert_eq!(path, "/h/.config/whale-nest/config.toml");
    assert!(write_defaults);
    assert!(!whalenest::state::open_config_file("/c", true).1);
}

#[test]
fn default_cwd_takes_the_first_non_empty_directory() {
    assert_eq!(default_cwd(Some("/home/u"), Some("/tmp")), "/home/u");
    assert_eq!(default_cwd(Some(""), Some("/tmp")), "/tmp");
    assert_eq!(default_cwd(None, Some("/tmp")), "/tmp");
    assert_eq!(default_cwd(Some(""), Some("")), ".");
    assert_eq!(default_cwd(None, None), ".");
}

fn profile(name: &str, path: &str) -> ProfileInfo {
    ProfileInfo {
        name: name.to_string(),
        path: path.to_string(),
        is_web_type: false,
        plugins: vec![],
        plugin_count: 0,
        cwd: "/home/u".to_string(),
        session_count: 0,
        last_session_time: None,
    }
}

#[test]
fn profiles_sort_by_name_keeping_ties_in_order() {
    let v = vec![profile("web", "/p/web"), profile("alpha", "/p/a1"), profile("Zed", "/p/z"), profile("alpha", "/p/a2")];
    let r = sort_profiles(v);
    let got: Vec<(&str, &str)> = r.iter().map(|p| (p.name.as_str(), p.path.as_str())).collect();
    assert_eq!(got, vec![("Zed", "/p/z"), ("alpha", "/p/a1"), ("alpha", "/p/a2"), ("web", "/p/web")]);
    assert!(sort_profiles(vec![]).is_empty());
}
