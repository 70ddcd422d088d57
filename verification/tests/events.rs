use whalenest::events::{dispatch, rgba_to_argb, Control};

#[test]
fn tray_ids_map_to_controls() {
    assert!(matches!(dispatch("open-main"), Some(Control::OpenMain)));
    assert!(matches!(dispatch("restart-kernel"), Some(Control::RestartKernel)));
    assert!(matches!(dispatch("toggle-autostart"), Some(Control::ToggleAutostart)));
    assert!(matches!(dispatch("quit"), Some(Control::Quit)));
    match dispatch("switch-work") {
        Some(Control::SwitchProfile(n)) => assert_eq!(n, "work"),
        _ => panic!(),
    }
    assert!(dispatch("nope").is_none());
}

#[test]
fn icon_pixels_become_argb() {
    assert_eq!(rgba_to_argb(&vec![1, 2, 3, 4, 5, 6, 7, 8, 9]), vec![4, 1, 2, 3, 8, 5, 6, 7]);
    assert!(rgba_to_argb(&vec![1, 2]).is_empty());
}
