use http_server::files::{pick_file, sandbox_admits};
use http_server::ContentHeaders;

fn check(ext: &str, ct: &str, age: u32, compress: bool) {
    let c = ContentHeaders::for_extension(ext);
    assert_eq!(c.content_type, ct);
    assert_eq!(c.cache_age, age);
    assert_eq!(c.compress, compress);
}

#[test]
fn policy_table() {
    check("html", "text/html; charset=UTF-8", 60, true);
    check("css", "text/css; charset=UTF-8", 259200, true);
    check("js", "text/javascript; charset=UTF-8", 259200, true);
    check("txt", "text/plain; charset=UTF-8", 60, true);
    check("json", "application/json; charset=UTF-8", 3600, true);
    check("svg", "image/svg+xml; charset=UTF-8", 604800, true);
    check("webp", "image/webp", 259200, false);
    check("jpg", "image/jpeg", 259200, false);
    check("jpeg", "image/jpeg", 259200, false);
    check("ico", "image/x-icon", 604800, false);
    check("png", "image/png", 259200, false);
    check("otf", "font/otf", 604800, true);
    check("ttf", "font/ttf", 604800, true);
    check("mp4", "video/mp4", 86400, false);
    check("mp3", "audio/mp3", 86400, false);
}

#[test]
fn policy_unknown_and_case() {
    check("exe", "application/octet-stream", 60, false);
    check("", "application/octet-stream", 60, false);
    check("HTML", "application/octet-stream", 60, false);
}

#[test]
fn pick_rules_in_order() {
    assert_eq!(pick_file("r/a", true, true, true, true), Some("r/a".to_string()));
    assert_eq!(pick_file("r/a", false, true, true, true), Some("r/a.html".to_string()));
    assert_eq!(pick_file("r/a.txt", false, true, true, true), Some("r/a.txt/index.html".to_string()));
    assert_eq!(pick_file("r/", false, false, true, true), Some("r/index.html".to_string()));
    assert_eq!(pick_file("r/a", false, false, true, false), None);
    assert_eq!(pick_file("r/a", false, false, false, true), None);
}

#[test]
fn sandbox_rule() {
    let root = Some("/srv/site".to_string());
    assert!(sandbox_admits(&root, &Some("/srv/site/index.html".to_string())));
    assert!(sandbox_admits(&root, &Some("/srv/site".to_string())));
    assert!(!sandbox_admits(&root, &Some("/srv/site2/index.html".to_string())));
    assert!(!sandbox_admits(&root, &Some("/etc/passwd".to_string())));
    assert!(!sandbox_admits(&None, &Some("/srv/site/a".to_string())));
    assert!(!sandbox_admits(&root, &None));
}

#[test]
fn extension_decides_policy_of_content() {
    let c = http_server::HttpContent::new("src", "/lib.rs").unwrap();
    assert_eq!(c.content_headers().cache_age, 60);
    assert!(!c.content_headers().compress);
}
