use whalenest::kernel::{DshExec, Kernel, KernelConfig, KernelState};
use whalenest::tray_state::{AppState, MAX_RECENT_DIRS};

fn state_with(dirs: &[&str]) -> AppState {
    let mut s = AppState::new("/home/u".to_string());
    s.recent_dirs = dirs.iter().map(|d| d.to_string()).collect();
    s
}

#[test]
fn recent_dir_moves_to_front_without_duplicates() {
    let mut s = state_with(&["/a", "/b", "/c"]);
    assert!(s.push_recent_dir("/b".to_string()));
    assert_eq!(s.recent_dirs, vec!["/b", "/a", "/c"]);
}

#[test]
fn recent_dirs_are_capped() {
    let mut s = state_with(&["/1", "/2", "/3", "/4", "/5", "/6"]);
    assert!(s.push_recent_dir("/7".to_string()));
    assert_eq!(s.recent_dirs.len(), MAX_RECENT_DIRS);
    assert_eq!(s.recent_dirs, vec!["/7", "/1", "/2", "/3", "/4", "/5"]);
}

#[test]
fn pushing_same_dir_twice_is_like_once() {
    let mut s = state_with(&["/a", "/b"]);
    s.push_recent_dir("/c".to_string());
    let once = s.recent_dirs.clone();
    s.push_recent_dir("/c".to_string());
    assert_eq!(s.recent_dirs, once);
    assert_eq!(s.cwd, "/home/u");
}

#[test]
fn switching_cwd_records_it() {
    let mut s = state_with(&["/a"]);
    assert!(!s.switch_cwd(String::new()));
    assert_eq!(s.cwd, "/home/u");
    assert!(s.switch_cwd("/b".to_string()));
    assert_eq!(s.cwd, "/b");
    assert_eq!(s.recent_dirs, vec!["/b", "/a"]);
}

#[test]
fn page_state_mirrors_kernel() {
    let s = state_with(&[]);
    let config = KernelConfig { profile: "web".into(), port: None, cwd: "/h".into(), patches: vec![], home: None, lock_port: false };
    let mut k = Kernel::new(config, "/l".into(), Ok(DshExec::WindowsCmd { shim: "dsh.cmd".into() }));
    k.state = KernelState::Ready { url: "http://127.0.0.1:1".into(), port: 1 };
    let r = s.get_state(&k);
    assert_eq!(r.status, "ready");
    assert_eq!(r.url.as_deref(), Some("http://127.0.0.1:1"));
    assert_eq!(r.cwd, "/home/u");
    k.launcher = None;
    assert_eq!(s.get_state(&k).status, "guide");
}

#[test]
fn pushing_the_first_dir_again_reports_no_change() {
    let mut s = state_with(&["/a", "/b"]);
    assert!(!s.push_recent_dir("/a".to_string()));
    assert_eq!(s.recent_dirs, vec!["/a", "/b"]);
    assert!(s.push_recent_dir("/b".to_string()));
    assert_eq!(s.recent_dirs, vec!["/b", "/a"]);
    let mut e = state_with(&[]);
    assert!(e.push_recent_dir("/x".to_string()));
}
