use reeverb::static_files::{cache_header, is_api_path, mime_for};

#[test]
fn mime_types_by_extension() {
    assert_eq!(mime_for("index.html"), "text/html; charset=utf-8");
    assert_eq!(mime_for("pkg/app.js"), "application/javascript");
    assert_eq!(mime_for("pkg/app_bg.wasm"), "application/wasm");
    assert_eq!(mime_for("style.css"), "text/css; charset=utf-8");
    assert_eq!(mime_for("data.json"), "application/json");
    assert_eq!(mime_for("logo.png"), "image/png");
    assert_eq!(mime_for("icon.svg"), "image/svg+xml");
    assert_eq!(mime_for("favicon.ico"), "image/x-icon");
    assert_eq!(mime_for("archive.tar.gz"), "application/octet-stream");
}

#[test]
fn mime_uses_last_extension_or_whole_name() {
    assert_eq!(mime_for("bundle.min.js"), "application/javascript");
    assert_eq!(mime_for("html"), "text/html; charset=utf-8");
    assert_eq!(mime_for("README"), "application/octet-stream");
    assert_eq!(mime_for(""), "application/octet-stream");
    assert_eq!(mime_for("file."), "application/octet-stream");
}

#[test]
fn bundles_are_cached_for_a_year() {
    assert_eq!(cache_header("pkg/app.wasm"), "public, max-age=31536000, immutable");
    assert_eq!(cache_header("app.js"), "public, max-age=31536000, immutable");
    assert_eq!(cache_header("style.css"), "public, max-age=31536000, immutable");
    assert_eq!(cache_header("index.html"), "no-cache");
    assert_eq!(cache_header("js"), "no-cache");
}

#[test]
fn api_paths_are_recognised() {
    assert!(is_api_path("/api/v1/projects"));
    assert!(is_api_path("/health"));
    assert!(is_api_path("/__rapina/routes"));
    assert!(!is_api_path("/health/"));
    assert!(!is_api_path("/api"));
    assert!(!is_api_path("/dashboard"));
    assert!(!is_api_path(""));
}
