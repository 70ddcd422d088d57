//! Desktop integration: the XDG application entry, the autostart entry,
//! and which external links may be opened.
use vstd::prelude::*;
use crate::state::{join_path, join_path_str};
use crate::text::concat_str;

verus! {

/// `app_id`, also the name of the desktop file and of the icon.
pub const APP_ID: &'static str = "dev.whalenest.desktop";

/// The XDG data directory: `$XDG_DATA_HOME` when set and not empty, else
/// `<home>/.local/share` (home `.` when unknown).
pub open spec fn data_home_spec(xdg_data_home: Option<Seq<char>>, home: Option<Seq<char>>) -> Seq<char> {
    match xdg_data_home {
        Some(x) if x.len() > 0 => x,
        _ => join_path(match home { Some(h) => h, None => "."@ }, ".local/share"@),
    }
}

/// The XDG data directory.
pub fn data_home(xdg_data_home: Option<&str>, home: Option<&str>) -> (r: String)
    ensures
        r@ == data_home_spec(match xdg_data_home { Some(x) => Some(x@), None => None }, match home { Some(h) => Some(h@), None => None }),
{
    match xdg_data_home {
        Some(x) => {
            if !x.is_empty() {
                return String::from_str(x);
            }
        },
        None => {},
    }
    match home {
        Some(h) => join_path_str(h, ".local/share"),
        None => join_path_str(".", ".local/share"),
    }
}

/// The application entry written to `applications/<app_id>.desktop` for
/// the executable `exe`.
pub open spec fn desktop_entry_spec(exe: Seq<char>) -> Seq<char> {
    "[Desktop Entry]\nType=Application\nName=WhaleNest\nComment=DeepSeek Harness desktop shell\nExec=\""@ + exe
        + "\"\nIcon=dev.whalenest.desktop\nStartupWMClass=dev.whalenest.desktop\nTerminal=false\nCategories=Development;Utility;\n"@
}

/// The application entry for the executable `exe`.
pub fn desktop_entry_content(exe: &str) -> (r: String)
    ensures
        r@ == desktop_entry_spec(exe@),
{
    let a = concat_str("[Desktop Entry]\nType=Application\nName=WhaleNest\nComment=DeepSeek Harness desktop shell\nExec=\"", exe);
    concat_str(a.as_str(), "\"\nIcon=dev.whalenest.desktop\nStartupWMClass=dev.whalenest.desktop\nTerminal=false\nCategories=Development;Utility;\n")
}

/// Where the application entry and the icon go under the data directory.
#[derive(Debug)]
pub struct InstallPaths {
    /// `applications/<app_id>.desktop`.
    pub desktop_file: String,
    /// `icons/hicolor/512x512/apps/<app_id>.png`.
    pub icon_file: String,
}

/// Where [`install`] writes, under the data directory `data_dir`.
pub fn install(data_dir: &str) -> (r: InstallPaths)
    ensures
        r.desktop_file@ == join_path(join_path(data_dir@, "applications"@), "dev.whalenest.desktop.desktop"@),
        r.icon_file@ == join_path(join_path(data_dir@, "icons/hicolor/512x512/apps"@), "dev.whalenest.desktop.png"@),
{
    let apps = join_path_str(data_dir, "applications");
    let icons = join_path_str(data_dir, "icons/hicolor/512x512/apps");
    InstallPaths {
        desktop_file: join_path_str(apps.as_str(), "dev.whalenest.desktop.desktop"),
        icon_file: join_path_str(icons.as_str(), "dev.whalenest.desktop.png"),
    }
}

/// The autostart entry file: `<home>/.config/autostart/whalenest.desktop`,
/// under the temp dir without a home directory.
pub fn autostart_desktop_path(home: Option<&str>, temp_dir: &str) -> (r: String)
    ensures
        r@ == join_path(join_path(match home {
            Some(h) => join_path(h@, ".config"@),
            None => temp_dir@,
        }, "autostart"@), "whalenest.desktop"@),
{
    let base = match home {
        Some(h) => join_path_str(h, ".config"),
        None => String::from_str(temp_dir),
    };
    let dir = join_path_str(base.as_str(), "autostart");
    join_path_str(dir.as_str(), "whalenest.desktop")
}

/// The autostart entry for the executable `exe`: started silently.
pub open spec fn autostart_entry_spec(exe: Seq<char>) -> Seq<char> {
    "[Desktop Entry]\nType=Application\nName=WhaleNest\nComment=DeepSeek Harness desktop shell\nExec=\""@ + exe
        + "\" --silent\nX-GNOME-Autostart-enabled=true\n"@
}

/// The file written to enable autostart: (path, content).
pub fn enable_autostart(exe: &str, home: Option<&str>, temp_dir: &str) -> (r: (String, String))
    ensures
        r.0@ == join_path(join_path(match home {
            Some(h) => join_path(h@, ".config"@),
            None => temp_dir@,
        }, "autostart"@), "whalenest.desktop"@),
        r.1@ == autostart_entry_spec(exe@),
{
    let path = autostart_desktop_path(home, temp_dir);
    let a = concat_str("[Desktop Entry]\nType=Application\nName=WhaleNest\nComment=DeepSeek Harness desktop shell\nExec=\"", exe);
    let content = concat_str(a.as_str(), "\" --silent\nX-GNOME-Autostart-enabled=true\n");
    (path, content)
}

/// How removing the autostart entry went.
#[derive(Debug)]
pub enum RemoveOutcome {
    Removed,
    /// There was nothing to remove.
    NotFound,
    /// Removing failed, with the error text.
    Failed(String),
}

/// The result of disabling autostart: a missing entry counts as disabled.
pub fn disable_autostart(outcome: RemoveOutcome) -> (r: Result<(), String>)
    ensures
        match outcome {
            RemoveOutcome::Failed(e) => r matches Err(m) && m@ == "删除自启文件失败: "@ + e@,
            _ => r is Ok,
        },
{
    match outcome {
        RemoveOutcome::Failed(e) => Err(concat_str("删除自启文件失败: ", e.as_str())),
        _ => Ok(()),
    }
}

/// The value written under the Windows `Run` key for the executable `exe`.
pub fn windows_run_value(exe: &str) -> (r: String)
    ensures
        r@ == "\""@ + exe@ + "\" --silent"@,
{
    let a = concat_str("\"", exe);
    concat_str(a.as_str(), "\" --silent")
}

/// Refusal of a link that is not http, https or mailto.
pub open spec fn unsupported_link_message() -> Seq<char> {
    "仅支持打开 http / https / mailto 协议的外部链接"@
}

/// The link to hand to the system opener: the trimmed URL when it is
/// `http://`, `https://` or `mailto:`, else the refusal.
pub open spec fn external_url_spec(url: Seq<char>) -> Result<Seq<char>, Seq<char>> {
    let t = crate::text::trim(url);
    if crate::text::starts_with(t, "http://"@) || crate::text::starts_with(t, "https://"@) || crate::text::starts_with(t, "mailto:"@) {
        Ok(t)
    } else {
        Err(unsupported_link_message())
    }
}

/// Decides whether an external link may be opened: the trimmed URL to open,
/// or why it is refused.
pub fn open_external_url(url: &str) -> (r: Result<String, String>)
    ensures
        match (r, external_url_spec(url@)) {
            (Ok(a), Ok(b)) => a@ == b,
            (Err(a), Err(b)) => a@ == b,
            _ => false,
        },
{
    let t = crate::text::trim_str(url);
    let ts = t.as_str();
    if crate::text::str_starts_with(ts, "http://") || crate::text::str_starts_with(ts, "https://")
        || crate::text::str_starts_with(ts, "mailto:") {
        Ok(t)
    } else {
        Err(String::from_str("仅支持打开 http / https / mailto 协议的外部链接"))
    }
}

/// A file holding `existing` (`None`: unreadable) must be written to hold
/// `content` unless it already does.
pub open spec fn needs_write_spec(existing: Option<Seq<char>>, content: Seq<char>) -> bool {
    existing != Some(content)
}

/// Whether a file must be written to hold `content`, given what it holds
/// now (`None` when it could not be read): only when it differs.
pub fn needs_write(existing: Option<&str>, content: &str) -> (b: bool)
    ensures
        b == needs_write_spec(match existing { Some(e) => Some(e@), None => None }, content@),
{
    match existing {
        Some(e) => !crate::text::str_eq(e, content),
        None => true,
    }
}

/// What the `image` crate makes of the PNG bytes `src` for the icon theme:
/// decoded, fitted into 512×512 with the Lanczos3 filter, converted to RGBA8
/// and encoded as PNG; or the message of the decoding or encoding error.
pub uninterp spec fn icon_png_512(src: Seq<u8>) -> Result<Seq<u8>, Seq<char>>;

/// `image::load_from_memory`, `DynamicImage::resize(512, 512, Lanczos3)`,
/// `to_rgba8` and `PngEncoder::write_image` with `Rgba8`. The contract only
/// names the outcome; the image processing is not stated.
#[verifier::external_body]
fn render_icon_png(src: &[u8]) -> (r: Result<Vec<u8>, String>)
    ensures
        match r {
            Ok(b) => icon_png_512(src@) == Ok::<Seq<u8>, Seq<char>>(b@),
            Err(e) => icon_png_512(src@) == Err::<Seq<u8>, Seq<char>>(e@),
        },
{
    let img = match image::load_from_memory(src) {
        Ok(i) => i,
        Err(e) => return Err(e.to_string()),
    };
    let rgba = img.resize(512, 512, image::imageops::FilterType::Lanczos3).to_rgba8();
    let mut buf: Vec<u8> = Vec::new();
    let encoder = image::codecs::png::PngEncoder::new(&mut buf);
    match image::ImageEncoder::write_image(encoder, rgba.as_raw(), rgba.width(), rgba.height(), image::ExtendedColorType::Rgba8) {
        Ok(()) => Ok(buf),
        Err(e) => Err(e.to_string()),
    }
}

/// Installing the icon rendered from `src` over a file holding `existing`
/// (`None`: unreadable): the rendering error, nothing to write when the file
/// already holds the rendered bytes, else the bytes to write.
pub open spec fn icon_write_spec(src: Seq<u8>, existing: Option<Seq<u8>>) -> Result<Option<Seq<u8>>, Seq<char>> {
    match icon_png_512(src) {
        Err(e) => Err(e),
        Ok(b) => if existing == Some(b) { Ok(None) } else { Ok(Some(b)) },
    }
}

/// Whether two byte strings are equal.
fn bytes_eq(a: &[u8], b: &[u8]) -> (r: bool)
    ensures
        r == (a@ == b@),
{
    if a.len() != b.len() {
        return false;
    }
    let mut i: usize = 0;
    while i < a.len()
        invariant
            i <= a@.len(),
            a@.len() == b@.len(),
            forall|k: int| 0 <= k < i ==> a@[k] == b@[k],
        decreases a.len() - i,
    {
        if a[i] != b[i] {
            return false;
        }
        i = i + 1;
    }
    assert(a@ =~= b@);
    true
}

/// The theme icon (`<app_id>.png`, 512×512) rendered from the PNG `src`, to
/// be written over a file holding `existing` (`None`: unreadable): the
/// rendering error, `Ok(None)` when the file already holds these bytes, or
/// the bytes to write.
pub fn icon_write(src: &[u8], existing: Option<&[u8]>) -> (r: Result<Option<Vec<u8>>, String>)
    ensures
        match (r, icon_write_spec(src@, match existing { Some(e) => Some(e@), None => None })) {
            (Err(e), Err(m)) => e@ == m,
            (Ok(None), Ok(None)) => true,
            (Ok(Some(b)), Ok(Some(c))) => b@ == c,
            _ => false,
        },
{
    let rendered = match render_icon_png(src) {
        Ok(b) => b,
        Err(e) => return Err(e),
    };
    match existing {
        Some(e) => if bytes_eq(e, rendered.as_slice()) {
            return Ok(None);
        },
        None => {},
    }
    Ok(Some(rendered))
}

/// Installing twice writes nothing the second time: after the icon and the
/// desktop entry were written as [`icon_write`] and [`needs_write`] asked,
/// neither asks for a write again.
pub proof fn law_install_twice_writes_nothing(
    src: Seq<u8>,
    icon_before: Option<Seq<u8>>,
    entry: Seq<char>,
    entry_before: Option<Seq<char>>,
)
    ensures
        icon_write_spec(src, icon_before) is Ok ==> icon_write_spec(src, match icon_write_spec(src, icon_before) {
            Ok(Some(b)) => Some(b),
            _ => icon_before,
        }) == Ok::<Option<Seq<u8>>, Seq<char>>(None),
        !needs_write_spec(if needs_write_spec(entry_before, entry) { Some(entry) } else { entry_before }, entry),
{
}

/// Every `http://`, `https://` or `mailto:` link (after trimming) is opened
/// as the trimmed text, in particular the kernel's local
/// `http://127.0.0.1:PORT/…` address; any other link is refused, and what
/// is opened is always the trimmed link.
pub proof fn law_web_links_open(url: Seq<char>)
    ensures
        ({
            let t = crate::text::trim(url);
            &&& (t.len() >= 7 && t.take(7) == "http://"@) ==> external_url_spec(url) == Ok::<Seq<char>, Seq<char>>(t)
            &&& (t.len() >= 8 && t.take(8) == "https://"@) ==> external_url_spec(url) == Ok::<Seq<char>, Seq<char>>(t)
            &&& (t.len() >= 7 && t.take(7) == "mailto:"@) ==> external_url_spec(url) == Ok::<Seq<char>, Seq<char>>(t)
            &&& external_url_spec(url) is Ok ==> external_url_spec(url) == Ok::<Seq<char>, Seq<char>>(t)
        }),
{
    reveal_strlit("http://");
    reveal_strlit("https://");
    reveal_strlit("mailto:");
}

} // verus!
