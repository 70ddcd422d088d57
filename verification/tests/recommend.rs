use whalenest::recommend::{get_repo_plugins_list, install_plugin_args, read_installed_dsh_plugins};

#[test]
fn installed_plugins_from_web_manifest() {
    let text = r#"{"dependencies": {"b": "1", "a": "1"}, "dsh": {"profile": {"bundles": ["a", "dsh-skin-material-you", "dsh-skin-material-you"]}}}"#;
    assert_eq!(read_installed_dsh_plugins(text), vec!["a", "b", "dsh-skin-material-you"]);
    assert!(read_installed_dsh_plugins("oops").is_empty());
}

#[test]
fn recommended_list_marks_installed() {
    let items = get_repo_plugins_list(&vec!["dsh-browser-tool".to_string()]);
    assert_eq!(items.len(), 4);
    assert_eq!(items[0].id, "dsh-skin-material-you");
    assert_eq!(items[0].category, "外观主题");
    assert!(!items[0].installed);
    assert!(items[2].installed);
    assert_eq!(items[3].name, "AST 结构化代码编辑");
    assert!(items.iter().all(|i| i.version.is_none()));
    assert_eq!(install_plugin_args("x"), vec!["plugin", "--profile", "web", "add", "x"]);
}
