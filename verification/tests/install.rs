use whalenest::install::{npm_results_of, npm_search_commands, parse_npm_search_json, search_npm_packages, GitHubSpec};
use whalenest::plugins::parse_manifest;

#[test]
fn parses_standard_github_repo() {
    let spec = GitHubSpec::parse("deepseek-ai/deepseek-harness").unwrap();
    assert_eq!(spec.owner, "deepseek-ai");
    assert_eq!(spec.repo, "deepseek-harness");
    assert_eq!(spec.git_ref, None);
    assert_eq!(spec.install_specifier(), "github:deepseek-ai/deepseek-harness");
    assert_eq!(spec.web_url(), "https://github.com/deepseek-ai/deepseek-harness");
}

#[test]
fn parses_github_prefix_with_ref() {
    let spec = GitHubSpec::parse("github:foo/bar#v1.2.0").unwrap();
    assert_eq!(spec.owner, "foo");
    assert_eq!(spec.repo, "bar");
    assert_eq!(spec.git_ref, Some("v1.2.0".to_string()));
    assert_eq!(spec.install_specifier(), "github:foo/bar#v1.2.0");
    assert_eq!(spec.web_url(), "https://github.com/foo/bar/tree/v1.2.0");
}

#[test]
fn parses_https_github_url() {
    let spec = GitHubSpec::parse("https://github.com/torvalds/linux.git").unwrap();
    assert_eq!(spec.owner, "torvalds");
    assert_eq!(spec.repo, "linux");
    assert_eq!(spec.git_ref, None);
}

#[test]
fn parses_https_github_url_with_tree_branch() {
    let spec = GitHubSpec::parse("https://github.com/owner/repo/tree/feat-modal").unwrap();
    assert_eq!(spec.owner, "owner");
    assert_eq!(spec.repo, "repo");
    assert_eq!(spec.git_ref, Some("feat-modal".to_string()));
    assert_eq!(spec.install_specifier(), "github:owner/repo#feat-modal");
    assert_eq!(spec.web_url(), "https://github.com/owner/repo/tree/feat-modal");
}

#[test]
fn parses_git_ssh_url() {
    let spec = GitHubSpec::parse("git@github.com:facebook/react.git").unwrap();
    assert_eq!(spec.owner, "facebook");
    assert_eq!(spec.repo, "react");
    assert_eq!(spec.git_ref, None);
}

#[test]
fn rejects_invalid_github_inputs() {
    assert!(GitHubSpec::parse("").is_none());
    assert!(GitHubSpec::parse("   ").is_none());
    assert!(GitHubSpec::parse("only-one-part").is_none());
    assert!(GitHubSpec::parse("too/many/parts/here").is_none());
    assert!(GitHubSpec::parse("invalid space/repo").is_none());
}

#[test]
fn parses_npm_search_json_array() {
    let json = r#"[
        {
            "name": "dsh-ast-edit-tool",
            "version": "0.2.0",
            "description": "AST edit tool for dsh"
        },
        {
            "name": "@scope/plugin",
            "version": "1.0.0",
            "description": "Scoped plugin"
        }
    ]"#;
    let results = parse_npm_search_json(json);
    assert_eq!(results.len(), 2);
    assert_eq!(results[0].name, "dsh-ast-edit-tool");
    assert_eq!(results[0].version, "0.2.0");
    assert_eq!(results[0].description, "AST edit tool for dsh");
    assert_eq!(results[0].detail_url, "https://www.npmjs.com/package/dsh-ast-edit-tool");
    assert_eq!(results[1].name, "@scope/plugin");
}

#[test]
fn parses_npm_registry_objects_json() {
    let json = r#"{
        "objects": [
            {
                "package": {
                    "name": "dsh",
                    "version": "1.0.1",
                    "description": "A shell written in JavaScript",
                    "links": {
                        "npm": "https://www.npmjs.com/package/dsh"
                    }
                }
            }
        ]
    }"#;
    let results = parse_npm_search_json(json);
    assert_eq!(results.len(), 1);
    assert_eq!(results[0].name, "dsh");
    assert_eq!(results[0].version, "1.0.1");
    assert_eq!(results[0].detail_url, "https://www.npmjs.com/package/dsh");
}

#[test]
fn parses_empty_or_malformed_npm_json() {
    assert!(parse_npm_search_json("{}").is_empty());
    assert!(parse_npm_search_json("[]").is_empty());
    assert!(parse_npm_search_json("not json").is_empty());
}

#[test]
fn github_ref_is_trimmed_and_ssh_without_suffix_parses() {
    let spec = GitHubSpec::parse("  github:a/b# main ").unwrap();
    assert_eq!(spec.git_ref.as_deref(), Some("main"));
    let spec = GitHubSpec::parse("git@github.com:a/b").unwrap();
    assert_eq!(spec.repo, "b");
}

#[test]
fn specifier_reads_back_to_same_repository() {
    for (owner, repo, r) in [("a", "b", None), ("deepseek-ai", "dsh.plugins", Some("v1.2.0")), ("x_1", "y-2", Some("feat/x"))] {
        let spec = GitHubSpec { owner: owner.into(), repo: repo.into(), git_ref: r.map(String::from) };
        let back = GitHubSpec::parse(&spec.install_specifier()).unwrap();
        assert_eq!(back.owner, owner);
        assert_eq!(back.repo, repo);
        assert_eq!(back.git_ref.as_deref(), r);
    }
    // A repository named `*.git` does not read back: reading strips the suffix.
    let spec = GitHubSpec { owner: "o".into(), repo: "r.git".into(), git_ref: None };
    assert_eq!(GitHubSpec::parse(&spec.install_specifier()).unwrap().repo, "r");
}

#[test]
fn package_search_tries_commands_in_order() {
    assert!(npm_search_commands("   ").is_empty());
    let cmds = npm_search_commands(" dsh skin ");
    assert_eq!(cmds[0], vec!["npm", "search", "dsh skin", "--json", "--searchlimit", "15"]);
    assert_eq!(cmds[1], vec!["npm", "view", "dsh skin", "name", "version", "description", "--json"]);
    assert_eq!(cmds[2], vec!["curl", "-s", "--max-time", "5", "https://registry.npmjs.org/-/v1/search?text=dsh+skin&size=15"]);
    let outputs = vec![Some("[]".to_string()), None, Some(r#"{"name": "dsh-x", "version": "1.0.0"}"#.to_string())];
    let found = search_npm_packages(&outputs);
    assert_eq!(found.len(), 1);
    assert_eq!(found[0].name, "dsh-x");
    assert!(search_npm_packages(&vec![None, Some("nope".to_string())]).is_empty());
}

#[test]
fn reads_npm_results_from_a_parsed_value() {
    let list = parse_manifest(r#"[{"name":"a","version":"1.0.0","description":"A"},{"version":"2"},{"name":"b"}]"#).unwrap();
    let r = npm_results_of(&list);
    assert_eq!(r.len(), 2);
    assert_eq!((r[0].name.as_str(), r[0].version.as_str(), r[0].description.as_str()), ("a", "1.0.0", "A"));
    assert_eq!((r[1].name.as_str(), r[1].version.as_str(), r[1].description.as_str()), ("b", "latest", ""));
    let objs = parse_manifest(r#"{"objects":[{"package":{"name":"c","version":"3","links":{"npm":"https://npm/c"}}}]}"#).unwrap();
    let r = npm_results_of(&objs);
    assert_eq!(r.len(), 1);
    assert_eq!((r[0].name.as_str(), r[0].detail_url.as_str()), ("c", "https://npm/c"));
    let one = parse_manifest(r#"{"name":"d","version":"4"}"#).unwrap();
    assert_eq!(npm_results_of(&one)[0].name, "d");
    assert!(npm_results_of(&parse_manifest("3").unwrap()).is_empty());
}
