use whalenest::kernel::{DshExec, DshNotFound};
use whalenest::launch::{
    login_shell_path, lookup_candidates, lookup_in_paths, parse_shebang, path_probe_flags, resolve_dsh,
    search_dirs, shebang_outcome, shell_probe_text, split_path_list, unix_command_line, validate_script,
    windows_candidates, windows_command_line, ShebangPlan,
};

fn plan(text: &str) -> ShebangPlan {
    parse_shebang(&text.as_bytes().to_vec())
}

fn strings(v: &[&str]) -> Vec<String> {
    v.iter().map(|s| s.to_string()).collect()
}

#[test]
fn shebang_via_env_is_looked_up() {
    match plan("#!/usr/bin/env node --max-old-space-size=4096\nconsole.log(1)\n") {
        ShebangPlan::Lookup { name, args, via_env } => {
            assert_eq!(name, "node");
            assert_eq!(args, strings(&["--max-old-space-size=4096"]));
            assert!(via_env);
        }
        _ => panic!("expected a lookup"),
    }
}

#[test]
fn shebang_env_dash_s_and_bare_names() {
    match plan("  #!env -S deno run -A\n") {
        ShebangPlan::Lookup { name, args, via_env } => {
            assert_eq!(name, "deno");
            assert_eq!(args, strings(&["run", "-A"]));
            assert!(via_env);
        }
        _ => panic!("expected a lookup"),
    }
    match plan("#!bash -e\n") {
        ShebangPlan::Lookup { name, via_env, .. } => {
            assert_eq!(name, "bash");
            assert!(!via_env);
        }
        _ => panic!("expected a lookup"),
    }
}

#[test]
fn shebang_with_path_runs_directly() {
    match plan("#! /bin/sh\n") {
        ShebangPlan::Direct { program, args } => {
            assert_eq!(program, "/bin/sh");
            assert!(args.is_empty());
        }
        _ => panic!("expected a direct interpreter"),
    }
}

#[test]
fn shebang_errors_and_absence() {
    match plan("#!/usr/bin/env node") {
        ShebangPlan::Invalid(m) => assert_eq!(m, "dsh 脚本首行无换行，无法解析解释器"),
        _ => panic!(),
    }
    match plan("#!   \n") {
        ShebangPlan::Invalid(m) => assert_eq!(m, "dsh 的 shebang 为空"),
        _ => panic!(),
    }
    match plan("#!/usr/bin/env -S\n") {
        ShebangPlan::Invalid(m) => assert_eq!(m, "dsh 的 shebang `env -S` 缺少命令名"),
        _ => panic!(),
    }
    assert!(matches!(plan("\x7fELF binary\n"), ShebangPlan::NoShebang));
    match plan("#!/usr/bin/env\n") {
        ShebangPlan::Lookup { name, args, via_env } => {
            assert_eq!(name, "");
            assert!(args.is_empty());
            assert!(via_env);
        }
        _ => panic!(),
    }
}

#[test]
fn shebang_outcomes() {
    let found = shebang_outcome(plan("#!/usr/bin/env node -x\n"), Some("/opt/node/bin/node".into()), false);
    assert_eq!(found.unwrap().unwrap(), strings(&["/opt/node/bin/node", "-x"]));
    let missing = shebang_outcome(plan("#!/usr/bin/env node\n"), None, false);
    assert_eq!(missing.unwrap().unwrap_err(), "找到 dsh 脚本，但其解释器 `node` 不在 PATH");
    let bare = shebang_outcome(plan("#!zsh\n"), None, false);
    assert_eq!(bare.unwrap().unwrap_err(), "dsh 脚本的解释器 `zsh` 不在 PATH");
    let not_exec = shebang_outcome(plan("#!/bin/nope\n"), None, false);
    assert_eq!(not_exec.unwrap().unwrap_err(), "dsh 脚本的解释器 /bin/nope 不存在或不可执行");
    let direct = shebang_outcome(plan("#!/bin/bash -e\n"), None, true);
    assert_eq!(direct.unwrap().unwrap(), strings(&["/bin/bash", "-e"]));
    assert!(shebang_outcome(plan("plain\n"), None, false).is_none());
}

#[test]
fn validating_scripts() {
    let ok = validate_script("/bin/dsh".into(), Some(Ok(strings(&["/bin/node"])))).unwrap();
    match ok {
        DshExec::UnixSh { shim, interpreter } => {
            assert_eq!(shim, "/bin/dsh");
            assert_eq!(interpreter.unwrap(), strings(&["/bin/node"]));
        }
        _ => panic!(),
    }
    assert_eq!(validate_script("/x".into(), Some(Err("why".into()))).unwrap_err(), "why");
    assert!(matches!(validate_script("/x".into(), None).unwrap(), DshExec::UnixSh { interpreter: None, .. }));
}

#[test]
fn lookups_take_the_first_usable_candidate() {
    let paths = strings(&["/usr/bin", "/opt/bin/"]);
    assert_eq!(lookup_candidates("node", &paths), strings(&["/usr/bin/node", "/opt/bin/node"]));
    assert_eq!(lookup_in_paths("node", &paths, &vec![false, true]).as_deref(), Some("/opt/bin/node"));
    assert_eq!(lookup_in_paths("node", &paths, &vec![false, false]), None);
}

#[test]
fn resolving_dsh_keeps_first_reason() {
    let r = resolve_dsh(vec![None, Some(Err("first".into())), Some(Err("second".into()))]);
    match r {
        Err(DshNotFound(m)) => assert_eq!(m, "first"),
        Ok(_) => panic!(),
    }
    let r = resolve_dsh(vec![
        Some(Err("bad".into())),
        Some(Ok(DshExec::UnixSh { shim: "/b/dsh".into(), interpreter: None })),
    ]);
    match r.unwrap() {
        DshExec::UnixSh { shim, .. } => assert_eq!(shim, "/b/dsh"),
        _ => panic!(),
    }
    match resolve_dsh(vec![]) {
        Err(nf) => {
            assert_eq!(nf.0, "");
            assert_eq!(nf.message(), "未找到 dsh 可执行文件（dsh.cmd / dsh）");
        }
        Ok(_) => panic!(),
    }
}

#[test]
fn search_paths() {
    assert_eq!(
        search_dirs(&strings(&["/usr/bin"]), Some("/home/u")),
        strings(&["/usr/bin", "/home/u/.local/bin"])
    );
    assert_eq!(split_path_list("/a:/b::/c"), strings(&["/a", "/b", "", "/c"]));
    let w = windows_candidates(&strings(&["C:\\bin"]));
    assert_eq!(w, strings(&["C:\\bin/dsh.cmd", "C:\\bin/dsh", "C:\\bin/dsh.ps1", "C:\\bin/dsh.exe"]));
}

#[test]
fn login_shell_probes() {
    assert_eq!(shell_probe_text("welcome!\n/usr/bin:/bin").as_deref(), Some("/usr/bin:/bin"));
    assert_eq!(shell_probe_text("noise\n  \n"), None);
    assert_eq!(path_probe_flags(), strings(&["-lic", "-lc", "-c"]));
    let outs = vec![None, Some("motd\n".to_string()), Some("x\n/p:/q".to_string())];
    assert_eq!(login_shell_path(&outs).as_deref(), Some("/p:/q"));
    assert_eq!(login_shell_path(&vec![None]), None);
}

#[test]
fn command_lines() {
    assert_eq!(
        unix_command_line("/b/dsh", &Some(strings(&["/n/node", "--x"])), "3080", false),
        strings(&["/n/node", "--x", "/b/dsh", "web", "--no-open", "--port", "3080"])
    );
    assert_eq!(
        unix_command_line("/b/dsh", &None, "4000", true),
        strings(&["/b/dsh", "web", "--no-open", "--port", "4000"])
    );
    assert_eq!(
        unix_command_line("/b/dsh", &None, "4000", false),
        strings(&["sh", "/b/dsh", "web", "--no-open", "--port", "4000"])
    );
    assert_eq!(
        windows_command_line("C:\\n\\dsh.ps1", "3080"),
        strings(&["powershell", "-NoProfile", "-ExecutionPolicy", "Bypass", "-File", "C:\\n\\dsh.ps1", "web", "--no-open", "--port", "3080"])
    );
    assert_eq!(
        windows_command_line("C:\\n\\dsh.cmd", "3080"),
        strings(&["cmd", "/C", "C:\\n\\dsh.cmd", "web", "--no-open", "--port", "3080"])
    );
    assert_eq!(windows_command_line("C:\\n\\.ps1", "1")[0], "cmd");
}
