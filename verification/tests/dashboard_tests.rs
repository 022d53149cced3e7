use zero_trust_gateway::dashboard::{dashboard_file_path, mime_type_for};

#[test]
fn empty_path_serves_index() {
    assert_eq!(dashboard_file_path(None), "index.html");
    assert_eq!(dashboard_file_path(Some("")), "index.html");
    assert_eq!(dashboard_file_path(Some("///")), "index.html");
}

#[test]
fn leading_slashes_are_dropped() {
    assert_eq!(dashboard_file_path(Some("/app.js")), "app.js");
    assert_eq!(dashboard_file_path(Some("//css/style.css")), "css/style.css");
}

#[test]
fn content_type_follows_last_extension() {
    assert_eq!(mime_type_for("index.html"), "text/html");
    assert_eq!(mime_type_for("style.css"), "text/css");
    assert_eq!(mime_type_for("app.js"), "application/javascript");
    assert_eq!(mime_type_for("data.json"), "application/json");
    assert_eq!(mime_type_for("logo.svg"), "image/svg+xml");
    assert_eq!(mime_type_for("archive.tar.gz"), "application/octet-stream");
    assert_eq!(mime_type_for("html"), "text/html");
    assert_eq!(mime_type_for("page.HTML"), "application/octet-stream");
    assert_eq!(mime_type_for("x.json.js"), "application/javascript");
}
