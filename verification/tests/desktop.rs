use whalenest::desktop::{
    autostart_desktop_path, data_home, desktop_entry_content, disable_autostart, enable_autostart, install,
    open_external_url, windows_run_value, RemoveOutcome,
};

#[test]
fn data_home_prefers_xdg() {
    assert_eq!(data_home(Some("/x/share"), Some("/h")), "/x/share");
    assert_eq!(data_home(Some(""), Some("/h")), "/h/.local/share");
    assert_eq!(data_home(None, None), "./.local/share");
}

#[test]
fn desktop_entry_names_app_id() {
    let c = desktop_entry_content("/opt/wn/whalenest");
    assert!(c.starts_with("[Desktop Entry]\nType=Application\nName=WhaleNest\n"));
    assert!(c.contains("Exec=\"/opt/wn/whalenest\"\nIcon=dev.whalenest.desktop\nStartupWMClass=dev.whalenest.desktop\n"));
    assert!(c.ends_with("Categories=Development;Utility;\n"));
    let p = install("/h/.local/share");
    assert_eq!(p.desktop_file, "/h/.local/share/applications/dev.whalenest.desktop.desktop");
    assert_eq!(p.icon_file, "/h/.local/share/icons/hicolor/512x512/apps/dev.whalenest.desktop.png");
}

#[test]
fn autostart_files() {
    assert_eq!(autostart_desktop_path(Some("/h"), "/tmp"), "/h/.config/autostart/whalenest.desktop");
    assert_eq!(autostart_desktop_path(None, "/tmp"), "/tmp/autostart/whalenest.desktop");
    let (path, content) = enable_autostart("/bin/wn", Some("/h"), "/tmp");
    assert_eq!(path, "/h/.config/autostart/whalenest.desktop");
    assert_eq!(
        content,
        "[Desktop Entry]\nType=Application\nName=WhaleNest\nComment=DeepSeek Harness desktop shell\nExec=\"/bin/wn\" --silent\nX-GNOME-Autostart-enabled=true\n"
    );
    assert!(disable_autostart(RemoveOutcome::NotFound).is_ok());
    assert!(disable_autostart(RemoveOutcome::Removed).is_ok());
    assert_eq!(disable_autostart(RemoveOutcome::Failed("denied".into())).unwrap_err(), "删除自启文件失败: denied");
    assert_eq!(windows_run_value("C:\\wn.exe"), "\"C:\\wn.exe\" --silent");
}

#[test]
fn external_links_are_limited() {
    assert_eq!(open_external_url("  https://x.org/a ").unwrap(), "https://x.org/a");
    assert_eq!(open_external_url("mailto:a@b.c").unwrap(), "mailto:a@b.c");
    assert_eq!(open_external_url("file:///etc/passwd").unwrap_err(), "仅支持打开 http / https / mailto 协议的外部链接");
}

#[test]
fn writes_only_when_content_differs() {
    assert!(whalenest::desktop::needs_write(None, "x"));
    assert!(whalenest::desktop::needs_write(Some("y"), "x"));
    assert!(!whalenest::desktop::needs_write(Some("x"), "x"));
}

fn tiny_png() -> Vec<u8> {
    let img = image::RgbaImage::from_pixel(4, 2, image::Rgba([10, 20, 30, 255]));
    let mut buf: Vec<u8> = Vec::new();
    let enc = image::codecs::png::PngEncoder::new(&mut buf);
    image::ImageEncoder::write_image(enc, img.as_raw(), 4, 2, image::ExtendedColorType::Rgba8).unwrap();
    buf
}

#[test]
fn icon_is_rendered_at_512_and_written_once() {
    let src = tiny_png();
    let bytes = whalenest::desktop::icon_write(&src, None).unwrap().unwrap();
    let out = image::load_from_memory(&bytes).unwrap();
    assert_eq!((out.width(), out.height()), (512, 256));
    assert!(whalenest::desktop::icon_write(&src, Some(&bytes)).unwrap().is_none());
    assert_eq!(whalenest::desktop::icon_write(&src, Some(b"old")).unwrap().unwrap(), bytes);
}

#[test]
fn icon_from_bytes_that_are_no_image_is_an_error() {
    assert!(whalenest::desktop::icon_write(b"not a png", None).is_err());
}
