use kovi_plugin_acl::clock::{elapsed_secs, unix_timestamp, wall_elapsed, wall_elapsed_i64};
use kovi_plugin_acl::web::{content_type_of, listen_port, parse_u16, requires_token, static_asset_path};

#[test]
fn public_paths_need_no_token() {
    assert!(!requires_token("/api/login"));
    assert!(!requires_token("/api/reset-password"));
    assert!(requires_token("/api/plugins"));
    assert!(requires_token("/api/login/"));
}

#[test]
fn asset_paths() {
    assert_eq!(static_asset_path("/"), "index.html");
    assert_eq!(static_asset_path(""), "index.html");
    assert_eq!(static_asset_path("///assets/app.js"), "assets/app.js");
    assert_eq!(static_asset_path("/favicon.ico"), "favicon.ico");
}

#[test]
fn ports() {
    assert_eq!(listen_port(None), 5800);
    assert_eq!(listen_port(Some("8080")), 8080);
    assert_eq!(listen_port(Some("+81")), 81);
    assert_eq!(listen_port(Some("65536")), 5800);
    assert_eq!(listen_port(Some("-1")), 5800);
    assert_eq!(listen_port(Some("")), 5800);
    for s in ["0", "65535", "65536", "+", "-0", "00080", "8o", "999999"] {
        assert_eq!(parse_u16(s), s.parse::<u16>().ok(), "input {:?}", s);
    }
}

#[test]
fn clocks() {
    let sec = 1_000_000_000u64;
    assert_eq!(elapsed_secs(5 * sec + 1, sec), 4);
    assert_eq!(elapsed_secs(sec, 5 * sec), 0);
    let s = 1_000_000_000i128;
    assert_eq!(wall_elapsed(10 * s, 3 * s + 1), 6);
    assert_eq!(wall_elapsed(3 * s + 1, 10 * s), -6);
    assert_eq!(wall_elapsed_i64(0, 0), 0);
    assert_eq!(unix_timestamp(1_700_000_000 * s + 999_999_999), 1_700_000_000);
    assert_eq!(unix_timestamp(-1), -1);
}

#[test]
fn content_types_follow_the_extension() {
    assert_eq!(content_type_of("index.html"), "text/html");
    assert_eq!(content_type_of("assets/app.css"), "text/css");
    assert_eq!(content_type_of("assets/app.js"), "text/javascript");
    assert_eq!(content_type_of("logo.svg"), "image/svg+xml");
    assert_eq!(content_type_of("LICENSE"), "application/octet-stream");
    assert_eq!(content_type_of("data.unknownext"), "application/octet-stream");
}
