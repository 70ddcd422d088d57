use whalenest::plugin_ops::{
    check_message, execution_outcome, op_report, outdated_args, outdated_packages, package_args,
    plugin_command_args, start_message, summarize, update_decision, UpdateStep,
};

fn strings(v: &[&str]) -> Vec<String> {
    v.iter().map(|s| s.to_string()).collect()
}

#[test]
fn command_args_prefix_profile() {
    assert_eq!(
        plugin_command_args("work", &strings(&["add", "x"])),
        strings(&["plugin", "--profile", "work", "add", "x"])
    );
    assert_eq!(outdated_args(), strings(&["outdated", "--format", "json"]));
    assert_eq!(package_args("remove", "p"), strings(&["remove", "p"]));
}

#[test]
fn outcomes_combine_output() {
    assert_eq!(execution_outcome(" done\n", "", true, Some(0)).unwrap(), "done");
    assert_eq!(execution_outcome("", "  ", false, Some(2)).unwrap_err(), "dsh 插件操作失败（退出码 Some(2)）");
    assert_eq!(execution_outcome("", "", false, None).unwrap_err(), "dsh 插件操作失败（退出码 None）");
    assert_eq!(execution_outcome("", "", false, Some(-9)).unwrap_err(), "dsh 插件操作失败（退出码 Some(-9)）");
    assert_eq!(execution_outcome("a", "b\n", false, Some(1)).unwrap_err(), "ab");
}

#[test]
fn summaries_per_operation() {
    assert_eq!(summarize(&strings(&["add", "p"]), "", true), "已安装插件「p」· 完成");
    assert_eq!(summarize(&strings(&["rm", "p"]), "ok", true), "已卸载插件「p」· ok");
    assert_eq!(summarize(&strings(&["up", "p"]), "ok", true), "已升级插件「p」· ok");
    assert_eq!(summarize(&strings(&["outdated"]), "{}", true), "检查完成：{}");
    assert_eq!(summarize(&strings(&["why", "p"]), "x", true), "插件操作完成：x");
    assert_eq!(summarize(&strings(&[]), "", false), "插件操作失败：完成");
    let long: String = std::iter::repeat('y').take(130).collect();
    let s = summarize(&strings(&["add", "p"]), &long, true);
    assert_eq!(s.chars().count(), "已安装插件「p」· ".chars().count() + 120);
}

#[test]
fn upgrades_only_when_outdated() {
    match update_decision("a", Ok(vec![("a".into(), "2".into())])) {
        UpdateStep::Upgrade { args } => assert_eq!(args, strings(&["update", "a"])),
        _ => panic!(),
    }
    match update_decision("b", Ok(vec![("a".into(), "2".into())])) {
        UpdateStep::Report { ok, message } => {
            assert!(ok);
            assert_eq!(message, "「b」已是最新版本，无需升级");
        }
        _ => panic!(),
    }
    match update_decision("b", Err("offline".into())) {
        UpdateStep::Report { ok, message } => {
            assert!(!ok);
            assert_eq!(message, "检查新版失败：offline");
        }
        _ => panic!(),
    }
}

#[test]
fn reports_and_messages() {
    assert_eq!(op_report(&strings(&["add", "p"]), Ok("".into())), (true, "已安装插件「p」· 完成".to_string()));
    assert_eq!(op_report(&strings(&["add", "p"]), Err("e".into())), (false, "e".to_string()));
    assert_eq!(start_message("安装插件"), "正在安装插件…");
    assert_eq!(check_message("p"), "正在检查「p」是否有新版…");
    let parsed = outdated_packages(Ok(r#"{"a":{"latest":"2"}}"#.into())).unwrap();
    assert_eq!(parsed, vec![("a".to_string(), "2".to_string())]);
    assert_eq!(outdated_packages(Err("x".into())).unwrap_err(), "x");
}
