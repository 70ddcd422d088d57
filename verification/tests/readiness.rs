use whalenest::readiness::{ProbeStep, Readiness, ReadinessError};

#[test]
fn port_from_base_url() {
    assert_eq!(Readiness::new("http://127.0.0.1:3987".into()).port(), 3987);
    assert_eq!(Readiness::new("http://127.0.0.1:+81".into()).port(), 81);
    assert_eq!(Readiness::new("http://127.0.0.1:0".into()).port(), 3080);
    assert_eq!(Readiness::new("http://127.0.0.1:70000".into()).port(), 3080);
    assert_eq!(Readiness::new("localhost".into()).port(), 3080);
    assert_eq!(Readiness::new("8080".into()).port(), 8080);
}

#[test]
fn steps_after_probe() {
    let r = Readiness::new("http://127.0.0.1:3080".into());
    match r.next_step(true, 99_999, 1) {
        ProbeStep::Ready(u) => assert_eq!(u, "http://127.0.0.1:3080"),
        _ => panic!(),
    }
    assert!(matches!(r.next_step(false, 10, 60_000), ProbeStep::Retry));
    match r.next_step(false, 60_000, 60_000) {
        ProbeStep::Failed(e) => assert_eq!(e.message(), "等待 dsh 就绪超时（60s）"),
        _ => panic!(),
    }
    assert_eq!(ReadinessError::Io("refused".into()).message(), "探测 dsh 端口失败: refused");
}
