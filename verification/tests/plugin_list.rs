use whalenest::plugins::parse_manifest;
use whalenest::plugin_list::{installed_manifest_path, parse_plugin_repo_url, plugin_entries, plugin_names};
use whalenest::plugins::PluginSource;

#[test]
fn plugin_entries_lists_deps_with_bundle_enabled_state() {
    let doc = parse_manifest(
        r#"{
  "name": "dsh-profile-web",
  "dependencies": {
    "dsh-ast-edit-tool": "^0.1.1",
    "dsh-better-sidebar": "0.18.0"
  },
  "dsh": { "profile": { "bundles": ["@deepseek-ai/dsh-base", "@deepseek-ai/dsh-web-app", "dsh-ast-edit-tool"] } }
}"#,
    )
    .unwrap();
    let names = plugin_names(&doc);
    let none: Vec<Option<String>> = names.iter().map(|_| None).collect();
    let entries = plugin_entries(&doc, &names, &none);
    assert_eq!(entries.len(), 2);
    let ast = entries.iter().find(|e| e.name == "dsh-ast-edit-tool").unwrap();
    assert!(ast.enabled);
    assert_eq!(ast.version, "^0.1.1");
    let bb = entries.iter().find(|e| e.name == "dsh-better-sidebar").unwrap();
    assert!(!bb.enabled);
    assert_eq!(bb.version, "0.18.0");
}

#[test]
fn plugin_entries_reads_node_modules_metadata_and_urls() {
    let doc = parse_manifest(
        r#"{
  "dependencies": {
    "dsh-ast-edit-tool": "^0.1.1",
    "dsh-git-tool": "github:example/dsh-git-tool#v1.0.0"
  },
  "dsh": { "profile": { "bundles": ["@deepseek-ai/dsh-base", "@deepseek-ai/dsh-web-app", "dsh-ast-edit-tool"] } }
}"#,
    )
    .unwrap();
    let installed = r#"{
  "name": "dsh-ast-edit-tool",
  "version": "0.1.1",
  "description": "DSH structural code-edit tool",
  "repository": {
    "type": "git",
    "url": "git+https://github.com/mtaech/melon.git"
  }
}"#;
    let names = plugin_names(&doc);
    let texts: Vec<Option<String>> = names
        .iter()
        .map(|n| if n == "dsh-ast-edit-tool" { Some(installed.to_string()) } else { None })
        .collect();
    let entries = plugin_entries(&doc, &names, &texts);
    assert_eq!(entries.len(), 2);

    let ast = entries.iter().find(|e| e.name == "dsh-ast-edit-tool").unwrap();
    assert_eq!(ast.installed_version.as_deref(), Some("0.1.1"));
    assert_eq!(ast.description.as_deref(), Some("DSH structural code-edit tool"));
    assert_eq!(ast.source, PluginSource::Npm);
    assert_eq!(ast.url.as_deref(), Some("https://github.com/mtaech/melon"));

    let git = entries.iter().find(|e| e.name == "dsh-git-tool").unwrap();
    assert_eq!(git.source, PluginSource::Git);
    assert_eq!(git.url.as_deref(), Some("https://github.com/example/dsh-git-tool"));
}

#[test]
fn plugin_names_are_sorted_unique_and_skip_official() {
    let doc = parse_manifest(
        r#"{
  "dependencies": { "zeta": "1", "@deepseek-ai/dsh-base": "1", "alpha": "1" },
  "dsh": { "profile": { "bundles": ["beta", "alpha", "@deepseek-harness-tui/x", 3] } }
}"#,
    )
    .unwrap();
    assert_eq!(plugin_names(&doc), vec!["alpha", "beta", "zeta"]);
    let empty = parse_manifest("[]").unwrap();
    assert!(plugin_names(&empty).is_empty());
}

#[test]
fn bundle_only_plugin_uses_installed_version() {
    let doc = parse_manifest(r#"{"dsh": {"profile": {"bundles": ["local-thing"]}}}"#).unwrap();
    let names = plugin_names(&doc);
    let texts = vec![Some(r#"{"version": "2.0.0", "homepage": "https://example.org/x"}"#.to_string())];
    let entries = plugin_entries(&doc, &names, &texts);
    assert_eq!(entries[0].version, "2.0.0");
    assert_eq!(entries[0].specifier, "");
    assert_eq!(entries[0].source, PluginSource::Unknown);
    assert_eq!(entries[0].url.as_deref(), Some("https://example.org/x"));
    assert!(entries[0].enabled);
}

#[test]
fn repo_urls_from_metadata_and_specifiers() {
    let ssh = parse_manifest(r#"{"repository": "ssh://git@github.com/a/b.git"}"#).unwrap();
    assert_eq!(
        parse_plugin_repo_url("x", "^1", PluginSource::Npm, Some(&ssh)).as_deref(),
        Some("https://github.com/a/b")
    );
    let not_web = parse_manifest(r#"{"repository": "git@github.com:a/b.git", "homepage": "ftp://x"}"#).unwrap();
    assert_eq!(
        parse_plugin_repo_url("x", "^1", PluginSource::Npm, Some(&not_web)).as_deref(),
        Some("https://www.npmjs.com/package/x")
    );
    assert_eq!(
        parse_plugin_repo_url("x", "git+https://github.com/o/r.git#main", PluginSource::Git, None).as_deref(),
        Some("https://github.com/o/r")
    );
    assert_eq!(
        parse_plugin_repo_url("x", "github:/o/r/#v1", PluginSource::Git, None).as_deref(),
        Some("https://github.com/o/r")
    );
    assert_eq!(parse_plugin_repo_url("x", "git:foo", PluginSource::Git, None), None);
    assert_eq!(parse_plugin_repo_url("x", "file:../x", PluginSource::Local, None), None);
}

#[test]
fn installed_manifest_paths_follow_scopes() {
    assert_eq!(
        installed_manifest_path("/p/web", "@scope/pkg"),
        "/p/web/node_modules/@scope/pkg/package.json"
    );
    assert_eq!(installed_manifest_path("/p/web/", "pkg"), "/p/web/node_modules/pkg/package.json");
}
