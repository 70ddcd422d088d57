use whalenest::plugin_list::PluginEntry;
use whalenest::plugins::PluginSource;
use whalenest::kernel::{DshExec, Kernel, KernelConfig, KernelState, KernelStatus};
use whalenest::ui::{
    delete_confirmation, plugin_panel_title, toggle_notice, upgrade_badge, resets_view, browser_url, card_port, card_status, font_family, npm_failure_message, session_text, shell_state_for,
    shorten_path, snapshot_from_kernel, titlebar_status, CardStatus, ShellState,
};

fn kernel(profile: &str) -> Kernel {
    let config = KernelConfig {
        profile: profile.into(),
        port: Some(3080),
        cwd: "/h".into(),
        patches: vec![],
        home: None,
        lock_port: false,
    };
    Kernel::new(config, "/l".into(), Ok(DshExec::WindowsCmd { shim: "C:\\dsh.cmd".into() }))
}

#[test]
fn titlebar_and_states() {
    assert_eq!(titlebar_status(&shell_state_for(KernelStatus::Starting)), "启动中");
    assert_eq!(titlebar_status(&shell_state_for(KernelStatus::Guide)), "待安装 dsh");
    assert_eq!(titlebar_status(&ShellState::Ready { url: "u".into() }), "已就绪");
    assert_eq!(titlebar_status(&ShellState::Error("e".into())), "出错");
    assert_eq!(titlebar_status(&ShellState::Stopped), "已停止");
    let mut k = kernel("web");
    k.state = KernelState::Crashed { restarts: 0, last_error: "x".into() };
    assert!(matches!(snapshot_from_kernel(&k), ShellState::Error(_)));
    k.launcher = None;
    assert!(matches!(snapshot_from_kernel(&k), ShellState::Guide));
}

#[test]
fn cards_follow_running_profile() {
    let mut k = kernel("web");
    k.state = KernelState::Ready { url: "http://127.0.0.1:3080".into(), port: 3080 };
    k.current_port = Some(3080);
    assert!(card_status(&k, "web") == CardStatus::Running);
    assert!(card_status(&k, "other") == CardStatus::Stopped);
    assert_eq!(card_port(&k, "web"), Some(3080));
    assert_eq!(card_port(&k, "other"), None);
    assert_eq!(browser_url(&k).as_deref(), Some("http://127.0.0.1:3080"));
    k.state = KernelState::Starting;
    assert!(card_status(&k, "web") == CardStatus::Starting);
    assert_eq!(browser_url(&k), None);
}

#[test]
fn short_texts() {
    assert_eq!(shorten_path("/short", 10), "/short");
    assert_eq!(shorten_path("/home/user/projects/app", 10), "/home…s/app");
    assert_eq!(session_text(3, Some(42)), "3 个会话 · 42 秒前");
    assert_eq!(session_text(1, Some(125)), "1 个会话 · 2 分钟前");
    assert_eq!(session_text(0, Some(7200)), "0 个会话 · 2 小时前");
    assert_eq!(session_text(0, None), "0 个会话 · 暂无");
    assert_eq!(font_family(Some("Noto Sans")), "Noto Sans");
    assert_eq!(font_family(Some("系统默认")), ".SystemUIFont");
    assert_eq!(font_family(Some("")), ".SystemUIFont");
    assert_eq!(font_family(None), ".SystemUIFont");
}

#[test]
fn npm_failures_name_first_nonblank_line() {
    assert_eq!(npm_failure_message("\n  \nnpm ERR! code E404\nmore"), "npm ERR! code E404");
    assert_eq!(npm_failure_message(" \r\n"), "npm 进程退出异常");
    assert_eq!(npm_failure_message("warn x\r\n"), "warn x");
}

#[test]
fn view_resets_when_kernel_stops_serving() {
    assert!(resets_view(&KernelStatus::Starting));
    assert!(resets_view(&KernelStatus::Error { message: "x".into() }));
    assert!(!resets_view(&KernelStatus::Ready { url: "u".into() }));
    assert!(!resets_view(&KernelStatus::Guide));
}

#[test]
fn plugin_panel_texts() {
    let entry = |name: &str, enabled: bool| PluginEntry {
        name: name.into(),
        version: "1".into(),
        specifier: "1".into(),
        installed_version: None,
        description: None,
        source: PluginSource::Npm,
        url: None,
        enabled,
    };
    assert_eq!(plugin_panel_title(&vec![entry("a", true), entry("b", false), entry("c", true)]), "插件管理 · 2 个已启用");
    assert_eq!(plugin_panel_title(&vec![]), "插件管理 · 0 个已启用");
    let outdated = vec![("a".to_string(), "2.0".to_string()), ("b".to_string(), "1.1".to_string()), ("a".to_string(), "3.0".to_string())];
    assert_eq!(upgrade_badge(&outdated, "a").as_deref(), Some("可升级 ↑ 3.0"));
    assert_eq!(upgrade_badge(&outdated, "z"), None);
    assert_eq!(toggle_notice("p", true), "「p」已启用");
    assert_eq!(toggle_notice("p", false), "「p」已禁用");
}

#[test]
fn deleting_profiles_asks_first() {
    assert_eq!(delete_confirmation("web", false).unwrap_err(), "`web` 是保留 profile，不能删除");
    assert_eq!(delete_confirmation("dev", true).unwrap(), "「dev」正在运行，将先停止再删除该 profile。");
    assert_eq!(delete_confirmation("dev", false).unwrap(), "确定删除 profile「dev」吗？");
}
