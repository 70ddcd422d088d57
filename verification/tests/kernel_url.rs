use whalenest::kernel::extract_dsh_web_url;

#[test]
fn extracts_plain_loopback_url() {
    let line = "dsh web: http://127.0.0.1:3987/?token=abcDEF123_-";
    assert_eq!(
        extract_dsh_web_url(line).as_deref(),
        Some("http://127.0.0.1:3987/?token=abcDEF123_-")
    );
}

#[test]
fn extracts_url_from_line_with_lan_suffix() {
    let line = "dsh web: http://127.0.0.1:3080/?token=xyz (LAN: http://192.168.1.5:3080/?token=xyz)";
    assert_eq!(
        extract_dsh_web_url(line).as_deref(),
        Some("http://127.0.0.1:3080/?token=xyz")
    );
}

#[test]
fn ignores_other_lines() {
    assert_eq!(extract_dsh_web_url("=== dsh kernel start ==="), None);
    assert_eq!(extract_dsh_web_url("some unrelated stdout line"), None);
    assert_eq!(extract_dsh_web_url(""), None);
}

#[test]
fn ignores_malformed_or_unknown_scheme() {
    assert_eq!(extract_dsh_web_url("dsh web: ftp://127.0.0.1/x"), None);
    assert_eq!(extract_dsh_web_url("dsh web:"), None);
}
