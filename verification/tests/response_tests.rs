use tinyserve::{build_response, extension_of, resolve_fallback, resolve_target};

#[test]
fn resolve_root_path_appends_index() {
    let target = resolve_target("/", "/srv/www", "bob");
    assert_eq!(target, "/srv/www/index.html");
}

#[test]
fn resolve_plain_path_concatenates() {
    let target = resolve_target("/app.js", "/srv/www", "bob");
    assert_eq!(target, "/srv/www/app.js");
}

#[test]
fn resolve_default_sentinel_uses_user_config_dir() {
    let target = resolve_target("/", "_default_", "bob");
    assert_eq!(target, "/home/bob/.config/tinyserve/index.html");
    let target = resolve_target("/a.css", "_default_", "bob");
    assert_eq!(target, "/home/bob/.config/tinyserve/a.css");
}

#[test]
fn resolve_fallback_is_404_page() {
    assert_eq!(resolve_fallback("/srv/www", "bob"), "/srv/www/404.html");
    assert_eq!(
        resolve_fallback("_default_", "bob"),
        "/home/bob/.config/tinyserve/404.html"
    );
}

#[test]
fn response_for_root_serves_html() {
    let resp = build_response(true, "/", "<h1>hi</h1>");
    assert_eq!(
        resp,
        "HTTP/1.1 200 OK\r\nContent-Type: text/html\r\n\r\n<h1>hi</h1>"
    );
}

#[test]
fn response_for_js_is_javascript() {
    let resp = build_response(true, "/app.js", "console.log(1);");
    assert_eq!(
        resp,
        "HTTP/1.1 200 OK\r\nContent-Type: text/javascript\r\n\r\nconsole.log(1);"
    );
}

#[test]
fn response_for_miss_is_404_html() {
    let resp = build_response(false, "/missing.txt", "not found");
    assert_eq!(
        resp,
        "HTTP/1.1 404 NOT FOUND\r\nContent-Type: text/html\r\n\r\nnot found"
    );
}

#[test]
fn response_passes_unmapped_extension_through() {
    let resp = build_response(true, "/data.xyz", "payload");
    assert_eq!(
        resp,
        "HTTP/1.1 200 OK\r\nContent-Type: text/xyz\r\n\r\npayload"
    );
}

#[test]
fn response_without_dot_passes_whole_path_through() {
    let resp = build_response(true, "/data", "payload");
    assert_eq!(
        resp,
        "HTTP/1.1 200 OK\r\nContent-Type: text//data\r\n\r\npayload"
    );
}

#[test]
fn resolution_is_idempotent() {
    let t1 = resolve_target("/a/b.html", "/srv/www", "bob");
    let t2 = resolve_target("/a/b.html", "/srv/www", "bob");
    assert_eq!(t1, t2);
    let r1 = build_response(true, "/a/b.html", "<p>same</p>");
    let r2 = build_response(true, "/a/b.html", "<p>same</p>");
    assert_eq!(r1, r2);
}

#[test]
fn extension_is_substring_after_last_dot() {
    assert_eq!(extension_of("/a.b.c"), "c");
    assert_eq!(extension_of("/style.css"), "css");
    assert_eq!(extension_of("/trailing."), "");
    assert_eq!(extension_of("/nodot"), "/nodot");
    assert_eq!(extension_of(""), "");
}
