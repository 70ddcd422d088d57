use whalenest::kernel::{log_line, LogWriter, MAX_LOG_SIZE};
use whalenest::kernel::{DshExec, Kernel, KernelConfig, KernelState, KernelStatus};

fn kernel() -> Kernel {
    let config = KernelConfig {
        profile: "web".into(),
        port: Some(3080),
        cwd: "/home/u".into(),
        patches: vec![],
        home: None,
        lock_port: false,
    };
    Kernel::new(config, "/tmp/whalenest/dsh.log".into(), Ok(DshExec::UnixSh { shim: "/usr/bin/dsh".into(), interpreter: None }))
}

#[test]
fn status_payloads() {
    let p = KernelStatus::Ready { url: "http://x".into() }.payload();
    assert_eq!(p.status, "ready");
    assert_eq!(p.url.as_deref(), Some("http://x"));
    assert!(p.message.is_none());
    let e = KernelStatus::Error { message: "boom".into() }.payload();
    assert_eq!(e.status, "error");
    assert_eq!(e.message.as_deref(), Some("boom"));
    assert_eq!(KernelStatus::Guide.payload().status, "guide");
    assert_eq!(KernelStatus::Starting.payload().status, "starting");
    assert_eq!(KernelStatus::Stopped.payload().status, "stopped");
}

#[test]
fn diagnostics_report_lists_kernel_facts() {
    let mut k = kernel();
    k.state = KernelState::Crashed { restarts: 3, last_error: "bad \"exit\"".into() };
    k.current_port = Some(3081);
    let d = k.diagnostics(Some("v20.1.0"), "tail line");
    let expected = "WhaleNest 诊断信息\n====================\ndsh 可执行文件: /usr/bin/dsh\n运行模式: 独立托管内核 (子进程)\n内核状态: Crashed { restarts: 3, last_error: \"bad \\\"exit\\\"\" }\nprofile: web\n工作目录: /home/u\n配置端口: Some(3080)\n当前端口: Some(3081)\n日志文件: /tmp/whalenest/dsh.log\nnode 版本: v20.1.0\n\n--- 最近日志 ---\ntail line";
    assert_eq!(d, expected);
    let mut k2 = kernel();
    k2.launcher = None;
    k2.launcher_error = Some("no dsh".into());
    let d2 = k2.diagnostics(None, "");
    assert!(d2.contains("dsh 可执行文件: 未找到\ndsh 探测详情: no dsh\n"));
    assert!(d2.contains("内核状态: Stopped\n"));
    assert!(d2.contains("当前端口: None\n"));
    assert!(!d2.contains("node 版本"));
}

#[test]
fn log_rotation_bookkeeping() {
    let mut w = LogWriter::open("/l/dsh.log".into(), Some(MAX_LOG_SIZE - 10));
    assert!(!w.needs_rotation(9));
    assert!(w.needs_rotation(10));
    w.wrote(8);
    assert_eq!(w.size, MAX_LOG_SIZE - 1);
    w.rotated(true);
    assert_eq!(w.size, 0);
    let mut closed = LogWriter::open("/l/dsh.log".into(), None);
    closed.wrote(5);
    assert_eq!(closed.size, 0);
    assert_eq!(log_line("stdout", "hello  \n").as_deref(), Some("[stdout] hello"));
    assert_eq!(log_line("stderr", " \r\n"), None);
}

#[test]
fn port_zero_means_automatic_and_kill_clears_the_port() {
    let mut k = kernel();
    k.config.port = Some(0);
    assert_eq!(k.spawn(true, 40123), Ok(40123));
    assert_eq!(k.current_port(), Some(40123));
    k.config.lock_port = true;
    assert_eq!(k.spawn(false, 40124), Ok(40124));
    let _ = k.started(40124, 1000);
    let (kill_tree, _) = k.kill();
    assert!(kill_tree);
    assert_eq!(k.current_port(), None);
    assert!(matches!(k.state, KernelState::Stopped));

    let mut k = kernel();
    k.config.lock_port = true;
    k.auth_url = Some("http://127.0.0.1:3080/?t=1".into());
    let e = k.spawn(false, 40125).unwrap_err();
    assert!(e.contains("3080"));
    assert_eq!(k.current_port(), None);
    assert_eq!(k.auth_url.as_deref(), Some("http://127.0.0.1:3080/?t=1"));
    assert_eq!(k.spawn(true, 40125), Ok(3080));
}

#[test]
fn profile_checks_and_switching() {
    let mut k = kernel();
    assert!(k.is_profile("web"));
    assert!(!k.is_profile("work"));
    k.state = KernelState::Stopped;
    assert!(!k.is_running_profile("web"));
    k.state = KernelState::Starting;
    assert!(k.is_running_profile("web"));
    assert!(!k.is_running_profile("work"));
    k.switch_profile("work".into(), "/srv".into());
    assert_eq!(k.config.profile, "work");
    assert_eq!(k.config.cwd, "/srv");
    assert_eq!(k.config.port, Some(3080));
}

#[test]
fn deleting_a_profile_falls_back_only_when_it_was_active_or_running() {
    let mut k = kernel();
    k.switch_profile("work".into(), "/srv".into());
    k.state = KernelState::Starting;
    let step = k.on_profile_deleted("other", false, "/home/u".into());
    assert!(!step.stop && !step.emit_stopped);
    assert_eq!((k.config.profile.as_str(), k.config.cwd.as_str()), ("work", "/srv"));
    assert!(matches!(k.state, KernelState::Starting));

    let step = k.on_profile_deleted("other", true, "/home/u".into());
    assert!(!step.stop && step.emit_stopped);
    assert_eq!((k.config.profile.as_str(), k.config.cwd.as_str()), ("web", "/home/u"));

    k.switch_profile("work".into(), "/srv".into());
    let step = k.on_profile_deleted("work", false, "/h".into());
    assert!(step.stop && step.emit_stopped);
    assert_eq!((k.config.profile.as_str(), k.config.cwd.as_str()), ("web", "/h"));
}
