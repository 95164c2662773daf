//! Responses: a status, headers, a MIME type hint and a body.

use crate::content_type::{content_type_for_ext, content_type_of, mime_type, mime_type_of};
use crate::path::{components_extension, extension_of_path, path_components};
use crate::resolve::{file_extension, ResolvedPath};
use crate::text::ascii_lowercase;
use vstd::prelude::*;
use vstd::string::StrSliceExecFns;
use vstd::string::StringExecFns;
use vstd::utf8::encode_utf8;

verus! {

/// One response header.
#[derive(Debug)]
pub struct Header {
    /// The header's name.
    pub name: String,
    /// The header's value.
    pub value: String,
}

impl View for Header {
    type V = (Seq<char>, Seq<char>);

    open spec fn view(&self) -> (Seq<char>, Seq<char>) {
        (self.name@, self.value@)
    }
}

/// A response as a specification value.
pub struct ResponseView {
    /// The status code.
    pub status: u16,
    /// The MIME type hint for the platform, without parameters.
    pub mimetype: Option<Seq<char>>,
    /// The headers as pairs of name and value, in the order they were set.
    pub headers: Seq<(Seq<char>, Seq<char>)>,
    /// The body.
    pub body: Seq<u8>,
}

/// A response: status, MIME type hint, headers in the order they were set,
/// and the body as it will be sent.
#[derive(Debug)]
pub struct Response {
    /// The status code.
    pub status: u16,
    /// The MIME type hint for the platform, without parameters.
    pub mimetype: Option<String>,
    /// The headers.
    pub headers: Vec<Header>,
    /// The body.
    pub body: Vec<u8>,
}

/// The headers of a run of `Header` values as pairs.
pub open spec fn header_pairs(headers: Seq<Header>) -> Seq<(Seq<char>, Seq<char>)> {
    Seq::new(headers.len(), |i: int| headers[i]@)
}

impl View for Response {
    type V = ResponseView;

    open spec fn view(&self) -> ResponseView {
        ResponseView {
            status: self.status,
            mimetype: match self.mimetype {
                Some(mimetype) => Some(mimetype@),
                None => None,
            },
            headers: header_pairs(self.headers@),
            body: self.body@,
        }
    }
}

/// The headers that every response carries: no caching, and the two
/// cross-origin isolation headers.
pub open spec fn common_headers() -> Seq<(Seq<char>, Seq<char>)> {
    seq![
        ("Cache-Control"@, "no-cache"@),
        ("Cross-Origin-Embedder-Policy"@, "require-corp"@),
        ("Cross-Origin-Opener-Policy"@, "same-origin"@),
    ]
}

/// The `200` response for a file with extension `ext`: the common headers,
/// then the `Content-Type` that the table holds for the extension in lower
/// case; the MIME type hint is that type without its `charset`.
pub open spec fn asset_response(ext: Seq<char>, body: Seq<u8>) -> ResponseView {
    ResponseView {
        status: 200,
        mimetype: Some(mime_type_of(content_type_of(ascii_lowercase(ext)))),
        headers: common_headers().push(("Content-Type"@, content_type_of(ascii_lowercase(ext)))),
        body,
    }
}

/// The plain-text response with the given status: the common headers, a
/// `text/plain` `Content-Type`, no MIME type hint, and the text as UTF-8.
pub open spec fn text_reply(status: u16, body: Seq<char>) -> ResponseView {
    ResponseView {
        status,
        mimetype: None,
        headers: common_headers().push(("Content-Type"@, "text/plain; charset=utf-8"@)),
        body: encode_utf8(body),
    }
}

/// The response for an asset that no source holds.
pub open spec fn not_found_reply() -> ResponseView {
    text_reply(404, "Not Found"@)
}

fn header(name: &str, value: &str) -> (r: Header)
    ensures
        r@ == (name@, value@),
{
    Header { name: String::from_str(name), value: String::from_str(value) }
}

/// Adds the headers that every response carries, after those already set.
pub fn with_common_headers(response: Response) -> (r: Response)
    ensures
        r@ == (ResponseView { headers: response@.headers + common_headers(), ..response@ }),
{
    let Response { status, mimetype, headers, body } = response;
    let mut headers = headers;
    let ghost before = header_pairs(headers@);
    headers.push(header("Cache-Control", "no-cache"));
    headers.push(header("Cross-Origin-Embedder-Policy", "require-corp"));
    headers.push(header("Cross-Origin-Opener-Policy", "same-origin"));
    assert(header_pairs(headers@) =~= before + common_headers());
    Response { status, mimetype, headers, body }
}

/// The `200` response for a file with extension `ext`.
pub fn response_for_extension(ext: &str, body: Vec<u8>) -> (r: Response)
    ensures
        r@ == asset_response(ext@, body@),
{
    let content_type = content_type_for_ext(ext);
    let bare = Response {
        status: 200,
        mimetype: Some(mime_type(content_type)),
        headers: Vec::new(),
        body,
    };
    let Response { status, mimetype, headers, body } = with_common_headers(bare);
    let mut headers = headers;
    let ghost before = header_pairs(headers@);
    headers.push(header("Content-Type", content_type));
    assert(header_pairs(headers@) =~= before.push(("Content-Type"@, content_type@)));
    Response { status, mimetype, headers, body }
}

/// The `200` response for a file read from disk; its type goes by the
/// extension of the file's path.
pub fn file_response(file_path: &ResolvedPath, body: Vec<u8>) -> (r: Response)
    ensures
        r@ == asset_response(file_extension(file_path@), body@),
{
    let ext = file_path.extension();
    response_for_extension(ext.as_str(), body)
}

/// The `200` response for bytes found under the path text `path`; its type
/// goes by the extension of the file that the path names.
pub fn response_for_bytes(path: &str, body: Vec<u8>) -> (r: Response)
    ensures
        r@ == asset_response(components_extension(path_components(path@)), body@),
{
    let ext = extension_of_path(path);
    response_for_extension(ext.as_str(), body)
}

/// A plain-text response with the given status.
pub fn text_response(status: u16, body: &str) -> (r: Response)
    ensures
        r@ == text_reply(status, body@),
{
    let bare = Response { status, mimetype: None, headers: Vec::new(), body: body.as_bytes_vec() };
    let Response { status, mimetype, headers, body } = with_common_headers(bare);
    let mut headers = headers;
    let ghost before = header_pairs(headers@);
    headers.push(header("Content-Type", "text/plain; charset=utf-8"));
    assert(header_pairs(headers@) =~= before.push(
        ("Content-Type"@, "text/plain; charset=utf-8"@),
    ));
    Response { status, mimetype, headers, body }
}

/// The `404` response for an asset that no source holds.
pub fn not_found() -> (r: Response)
    ensures
        r@ == not_found_reply(),
{
    text_response(404, "Not Found")
}

} // verus!
