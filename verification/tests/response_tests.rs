use asset_resolver::resolve::{safe_resolve_file_path, ResolvedPath};
use asset_resolver::response::{
    file_response, not_found, response_for_bytes, response_for_extension, text_response,
    with_common_headers, Header, Response,
};

fn pairs(response: &Response) -> Vec<(&str, &str)> {
    response.headers.iter().map(|h| (h.name.as_str(), h.value.as_str())).collect()
}

fn path_of(root: &str, segments: &[&str]) -> ResolvedPath {
    safe_resolve_file_path(root, &segments.join("/")).unwrap()
}

#[test]
fn common_headers_are_added_after_those_set() {
    let bare = Response {
        status: 201,
        mimetype: Some("x/y".to_string()),
        headers: vec![Header { name: "X-First".to_string(), value: "1".to_string() }],
        body: vec![1, 2, 3],
    };
    let response = with_common_headers(bare);
    assert_eq!(response.status, 201);
    assert_eq!(response.mimetype.as_deref(), Some("x/y"));
    assert_eq!(response.body, vec![1, 2, 3]);
    assert_eq!(
        pairs(&response),
        vec![
            ("X-First", "1"),
            ("Cache-Control", "no-cache"),
            ("Cross-Origin-Embedder-Policy", "require-corp"),
            ("Cross-Origin-Opener-Policy", "same-origin"),
        ]
    );
}

#[test]
fn file_response_carries_type_and_body() {
    let response = file_response(&path_of("/srv", &["index.html"]), b"<html></html>".to_vec());
    assert_eq!(response.status, 200);
    assert_eq!(response.mimetype.as_deref(), Some("text/html"));
    assert_eq!(response.body, b"<html></html>".to_vec());
    assert_eq!(
        pairs(&response),
        vec![
            ("Cache-Control", "no-cache"),
            ("Cross-Origin-Embedder-Policy", "require-corp"),
            ("Cross-Origin-Opener-Policy", "same-origin"),
            ("Content-Type", "text/html; charset=utf-8"),
        ]
    );
}

#[test]
fn file_response_for_an_unknown_extension() {
    let response = file_response(&path_of("/srv", &["data.bin"]), vec![0, 255]);
    assert_eq!(response.status, 200);
    assert_eq!(response.mimetype.as_deref(), Some("application/octet-stream"));
    assert_eq!(pairs(&response)[3], ("Content-Type", "application/octet-stream"));
    assert_eq!(response.body, vec![0, 255]);
}

#[test]
fn response_for_bytes_goes_by_the_path() {
    let response = response_for_bytes("pkg/app.wasm", vec![0, 97, 115, 109]);
    assert_eq!(response.status, 200);
    assert_eq!(response.mimetype.as_deref(), Some("application/wasm"));
    assert_eq!(pairs(&response)[3], ("Content-Type", "application/wasm"));
    assert_eq!(response.body, vec![0, 97, 115, 109]);
    let response = response_for_bytes("data.json", b"{}".to_vec());
    assert_eq!(response.mimetype.as_deref(), Some("application/json"));
    assert_eq!(pairs(&response)[3], ("Content-Type", "application/json; charset=utf-8"));
}

#[test]
fn response_for_extension_sets_hint_without_charset() {
    let response = response_for_extension("txt", b"hi".to_vec());
    assert_eq!(response.mimetype.as_deref(), Some("text/plain"));
    assert_eq!(pairs(&response)[3], ("Content-Type", "text/plain; charset=utf-8"));
    let response = response_for_extension("", Vec::new());
    assert_eq!(response.mimetype.as_deref(), Some("application/octet-stream"));
    assert!(response.body.is_empty());
}

#[test]
fn text_response_is_plain_text() {
    let response = text_response(404, "Not Found");
    assert_eq!(response.status, 404);
    assert_eq!(response.mimetype, None);
    assert_eq!(response.body, b"Not Found".to_vec());
    assert_eq!(
        pairs(&response),
        vec![
            ("Cache-Control", "no-cache"),
            ("Cross-Origin-Embedder-Policy", "require-corp"),
            ("Cross-Origin-Opener-Policy", "same-origin"),
            ("Content-Type", "text/plain; charset=utf-8"),
        ]
    );
}

#[test]
fn text_response_encodes_the_body_as_utf8() {
    let response = text_response(500, "caf\u{e9}");
    assert_eq!(response.status, 500);
    assert_eq!(response.body, vec![b'c', b'a', b'f', 0xC3, 0xA9]);
}

#[test]
fn not_found_is_the_404_text() {
    let response = not_found();
    assert_eq!(response.status, 404);
    assert_eq!(response.body, b"Not Found".to_vec());
    assert_eq!(pairs(&response)[3], ("Content-Type", "text/plain; charset=utf-8"));
}

#[test]
fn an_upper_case_extension_gets_its_type() {
    let response = file_response(&path_of("/srv", &["INDEX.HTML"]), b"<html/>".to_vec());
    assert_eq!(response.mimetype.as_deref(), Some("text/html"));
    assert_eq!(pairs(&response)[3], ("Content-Type", "text/html; charset=utf-8"));
    let response = response_for_bytes("pkg/App.Wasm", vec![0]);
    assert_eq!(response.mimetype.as_deref(), Some("application/wasm"));
    assert_eq!(pairs(&response)[3], ("Content-Type", "application/wasm"));
    let response = response_for_extension("PNG", Vec::new());
    assert_eq!(pairs(&response)[3], ("Content-Type", "image/png"));
}
