use whalenest::env_check::{check_env, probe_result, tool_candidates, windows_tool_candidates, ProbeRun};

#[test]
fn probes_read_first_output_line() {
    let (found, v) = probe_result(ProbeRun::Exited { success: true, stdout: Some("  v20.1.0\nextra\n".into()) });
    assert!(found);
    assert_eq!(v.as_deref(), Some("v20.1.0"));
    assert_eq!(probe_result(ProbeRun::Exited { success: true, stdout: Some("\n".into()) }).1.as_deref(), Some(""));
    assert_eq!(probe_result(ProbeRun::Exited { success: false, stdout: Some("x".into()) }), (true, None));
    assert_eq!(probe_result(ProbeRun::TimedOut), (true, None));
    assert_eq!(probe_result(ProbeRun::CouldNotRun), (false, None));
}

#[test]
fn env_check_requires_node_npm_dsh() {
    let yes = (true, Some("1".to_string()), Some("/bin/x".to_string()));
    let no = (false, None, None);
    let r = check_env(yes.clone(), yes.clone(), no.clone(), yes.clone());
    assert!(r.all_passed);
    assert_eq!(r.node.name, "Node.js");
    assert_eq!(r.dsh.name, "DeepSeek Harness (dsh)");
    assert!(!r.pnpm.found);
    let r = check_env(yes.clone(), no.clone(), yes.clone(), yes);
    assert!(!r.all_passed);
}

#[test]
fn tool_candidates_in_search_order() {
    assert_eq!(
        tool_candidates("pnpm", &vec!["/usr/bin".to_string()], Some("/h")),
        vec!["/usr/bin/pnpm", "/h/.local/bin/pnpm", "/h/.volta/bin/pnpm"]
    );
    assert_eq!(
        windows_tool_candidates("node", &vec!["C:\\n".to_string()]),
        vec!["C:\\n/node.cmd", "C:\\n/node.exe", "C:\\n/node.bat", "C:\\n/node.ps1", "C:\\n/node"]
    );
}
