use snsx::graphics::{Canvas, Color};
use snsx::layout::{render_ascii, simple_layout, DomNode};
use snsx::manifest::{policy_from_flags, sandbox_policy_for_manifest, security_policy_for_manifest, SecurityPolicy};
use snsx::preview::{input_wait_output, try_wrap_lines, wrap_lines};
use snsx::web::{
    admit_request, escape_html, find_header_end, needs_token, parse_request_head, require_token, response_head, route_request,
    status_reason, Route,
};
use std::collections::HashMap;

fn element(tag: &str, children: Vec<DomNode>) -> DomNode {
    DomNode::Element { tag: tag.to_string(), attrs: HashMap::new(), children }
}

#[test]
fn canvas_draws_and_writes_ppm() {
    let mut c = Canvas::new(2, 2);
    assert_eq!(c.ppm_text(), "P3\n2 2\n255\n255 255 255\n255 255 255\n255 255 255\n255 255 255\n");
    c.put(1, 0, Color(1, 2, 3));
    c.put(5, 5, Color(9, 9, 9));
    assert_eq!(c.ppm_text(), "P3\n2 2\n255\n255 255 255\n1 2 3\n255 255 255\n255 255 255\n");
    let mut d = Canvas::new(3, 3);
    d.line(0, 0, 2, 2, Color(0, 0, 0));
    assert_eq!(
        d.ppm_text(),
        "P3\n3 3\n255\n0 0 0\n255 255 255\n255 255 255\n255 255 255\n0 0 0\n255 255 255\n255 255 255\n255 255 255\n0 0 0\n"
    );
}

#[test]
fn layout_places_children_below_their_parent() {
    let doc = element("div", vec![DomNode::Text("hi".to_string()), DomNode::Text("a\nb".to_string())]);
    let boxes = simple_layout(&doc, 80);
    assert_eq!(boxes.len(), 3);
    assert_eq!((boxes[0].x, boxes[0].y, boxes[0].width, boxes[0].height), (2, 1, 78, 1));
    assert_eq!((boxes[1].x, boxes[1].y, boxes[1].width, boxes[1].height), (2, 3, 78, 2));
    assert_eq!((boxes[2].x, boxes[2].y, boxes[2].width, boxes[2].height), (0, 0, 80, 6));
}

#[test]
fn ascii_rendering() {
    let doc = element("div", vec![DomNode::Text("hi".to_string())]);
    assert_eq!(render_ascii(&doc), "<div>\n  hi\n\n");
    assert_eq!(render_ascii(&DomNode::Text("x".to_string())), "x\n");
}

#[test]
fn routes_and_tokens() {
    assert_eq!(route_request("GET", "/"), Route::Index);
    assert_eq!(route_request("GET", "/api/state"), Route::State);
    assert_eq!(route_request("POST", "/api/run"), Route::Run);
    assert_eq!(route_request("PUT", "/api/run"), Route::NotFound);
    assert_eq!(route_request("GET", "/api/run"), Route::NotFound);
    assert!(needs_token(Route::State));
    assert!(!needs_token(Route::DocReadme));
    let headers = vec![("x-snsx-token".to_string(), "abc".to_string())];
    assert!(require_token(&headers, "abc").is_ok());
    assert_eq!(require_token(&headers, "zzz").unwrap_err().message(), "missing or invalid SNSX session token");
}

#[test]
fn request_heads() {
    let head = parse_request_head("POST /api/save HTTP/1.1\r\nX-SNSX-Token: t1\r\nContent-Length: 12\r\nbogus\r\n").unwrap();
    assert_eq!(head.method, "POST");
    assert_eq!(head.path, "/api/save");
    assert_eq!(head.headers, vec![("x-snsx-token".to_string(), "t1".to_string()), ("content-length".to_string(), "12".to_string())]);
    assert_eq!(head.content_length, 12);
    assert_eq!(parse_request_head("").unwrap_err().message(), "missing request method");
    assert_eq!(parse_request_head("GET").unwrap_err().message(), "missing request path");
    assert_eq!(find_header_end(b"GET / HTTP/1.1\r\n\r\nbody"), Some(14));
    assert_eq!(find_header_end(b"GET / HTTP/1.1\r\n"), None);
}

#[test]
fn responses_and_html() {
    assert_eq!(escape_html("<a & b>"), "&lt;a &amp; b&gt;");
    assert_eq!(status_reason(401), "Unauthorized");
    assert_eq!(status_reason(999), "OK");
    let head = response_head(404, "text/plain", 5);
    assert!(head.starts_with("HTTP/1.1 404 Not Found\r\nContent-Type: text/plain\r\nContent-Length: 5\r\nCache-Control: no-store\r\n"));
    assert!(head.ends_with("frame-ancestors 'none'\r\n\r\n"));
}

#[test]
fn preview_wrapping() {
    assert_eq!(wrap_lines("abcdef\nxy", 4), vec!["abcd", "ef", "xy"]);
    assert_eq!(wrap_lines("", 4), vec![""]);
    assert_eq!(try_wrap_lines("abc", 0), None);
    assert_eq!(try_wrap_lines("héllo", 2), None);
    assert_eq!(try_wrap_lines("ab", 0), None);
    assert_eq!(try_wrap_lines("", 0), Some(vec![String::new()]));
}

#[test]
fn waiting_for_input_shows_the_output_so_far() {
    assert_eq!(input_wait_output("Name?", 0), "Name?\nProgram is waiting for input line 1.");
    assert_eq!(input_wait_output("a\n", 2), "a\nProgram is waiting for input line 3.");
    assert_eq!(input_wait_output("", 0), "Program is waiting for input line 1.");
}

#[test]
fn manifests_grant_permissions() {
    let p = security_policy_for_manifest("[permissions]\nfs = true\nnet = false\n").unwrap();
    assert_eq!(p, SecurityPolicy { strict: true, allow_fs: true, allow_network: false, allow_ai: true });
    let q = security_policy_for_manifest("[package]\nname = \"x\"\n").unwrap();
    assert_eq!(q, policy_from_flags(None, None, None));
    assert_eq!(q, SecurityPolicy { strict: true, allow_fs: false, allow_network: false, allow_ai: true });
    let r = security_policy_for_manifest("[permissions]\nai = false\n").unwrap();
    assert!(!r.allow_ai);
    assert!(security_policy_for_manifest("[permissions\n").is_err());
}

#[test]
fn api_requests_without_the_token_are_refused() {
    let good = vec![("x-snsx-token".to_string(), "abc".to_string())];
    let bad = vec![("x-snsx-token".to_string(), "zzz".to_string())];
    let none: Vec<(String, String)> = Vec::new();
    assert_eq!(admit_request("POST", "/api/save", &good, "abc").unwrap(), Route::Save);
    assert_eq!(
        admit_request("POST", "/api/save", &bad, "abc").unwrap_err().message(),
        "missing or invalid SNSX session token"
    );
    assert_eq!(
        admit_request("GET", "/api/state", &none, "abc").unwrap_err().message(),
        "missing or invalid SNSX session token"
    );
    assert_eq!(admit_request("GET", "/", &none, "abc").unwrap(), Route::Index);
    assert_eq!(admit_request("GET", "/docs/readme", &bad, "abc").unwrap(), Route::DocReadme);
    assert_eq!(admit_request("GET", "/nowhere", &none, "abc").unwrap(), Route::NotFound);
}

#[test]
fn manifest_entries_are_read_per_key() {
    let raw = "[permissions]\nfs = true\nnet = true\nai = false\n[dependencies]\nfs = false\n";
    let p = security_policy_for_manifest(raw).unwrap();
    assert_eq!(p, SecurityPolicy { strict: true, allow_fs: true, allow_network: true, allow_ai: false });
    let s = sandbox_policy_for_manifest(raw).unwrap();
    assert!(s.allow_fs && s.allow_network && !s.allow_ai && !s.deterministic);
    assert_eq!(s.max_memory_bytes, 64 * 1024 * 1024);
    let odd = security_policy_for_manifest("permissions = 3\n").unwrap();
    assert_eq!(odd, policy_from_flags(None, None, None));
    let text = security_policy_for_manifest("[permissions]\nfs = \"yes\"\n").unwrap();
    assert!(!text.allow_fs);
    assert!(sandbox_policy_for_manifest("= nope").is_err());
}
