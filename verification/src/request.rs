//! What the resolver reads of a request: its URI and its `Accept` header.

use crate::text::{
    ascii_lowercase, before_first, chars_of, contains_text, find_text, first_match,
    lemma_before_first_char, lemma_contains_text, lemma_first_match, lowercase_chars,
    prefix_before, same_text,
};
use vstd::prelude::*;
use vstd::string::StrSliceExecFns;
use vstd::string::StringExecFns;

verus! {

/// A request as a specification value.
pub struct RequestView {
    /// The request URI.
    pub uri: Seq<char>,
    /// The value of the `Accept` header, where the request has one that is
    /// text.
    pub accept: Option<Seq<char>>,
}

/// An inbound request: the full URI, and the `Accept` header if the request
/// carries one that reads as text.
#[derive(Debug)]
pub struct Request {
    /// The request URI, fully qualified or a path.
    pub uri: String,
    /// The value of the `Accept` header.
    pub accept: Option<String>,
}

impl View for Request {
    type V = RequestView;

    open spec fn view(&self) -> RequestView {
        RequestView {
            uri: self.uri@,
            accept: match self.accept {
                Some(value) => Some(value@),
                None => None,
            },
        }
    }
}

/// Whether a character ends the part of a URI in which a scheme can
/// stand: the path starts at `/`, the query at `?`, the fragment at `#`.
pub open spec fn ends_scheme(c: char) -> bool {
    c == '/' || c == '?' || c == '#'
}

/// Where the scheme marker of a URI stands: at its first `://`, if no `/`,
/// `?` or `#` stands before that. A `://` further on belongs to the path,
/// the query or the fragment; the URI is then a path, and so is one
/// without `://`. For a path the result is the length of the URI.
pub open spec fn scheme_marker(uri: Seq<char>) -> int {
    let at = first_match(uri, "://"@, 0);
    if forall|j: int| 0 <= j < at ==> !ends_scheme(#[trigger] uri[j]) {
        at
    } else {
        uri.len() as int
    }
}

/// What is left of a URI once scheme and host are gone: for a URI with a
/// scheme marker, the text from the first `/` after the marker, or `/`
/// where none follows; a path as it stands.
pub open spec fn without_authority(uri: Seq<char>) -> Seq<char> {
    let marker = scheme_marker(uri);
    if marker < uri.len() {
        let rest = uri.skip(marker + "://"@.len());
        let slash = first_match(rest, "/"@, 0);
        if slash < rest.len() {
            rest.skip(slash)
        } else {
            "/"@
        }
    } else {
        uri
    }
}

/// The pathname of a URI: scheme and host dropped, cut before the first `?`
/// and then before the first `#`; `/` where nothing is left.
pub open spec fn pathname(uri: Seq<char>) -> Seq<char> {
    let path = before_first(before_first(without_authority(uri), "?"@), "#"@);
    if path.len() == 0 {
        "/"@
    } else {
        path
    }
}

/// The asset that a URI asks for: its pathname, with `/editor` standing for
/// `/`, `index.html` added after a trailing `/`, and `/index.html` for an
/// empty path.
pub open spec fn asset_path(uri: Seq<char>) -> Seq<char> {
    let path = pathname(uri);
    let landed = if path == "/editor"@ {
        "/"@
    } else {
        path
    };
    let filled = if landed.len() > 0 && landed.last() == '/' {
        landed + "index.html"@
    } else {
        landed
    };
    if filled.len() == 0 {
        "/index.html"@
    } else {
        filled
    }
}

/// Whether an `Accept` header asks for an HTML document: in lower case it
/// holds `text/html` or `*/*`. A request without the header asks for none.
pub open spec fn accepts_html(accept: Option<Seq<char>>) -> bool {
    match accept {
        Some(value) => contains_text(ascii_lowercase(value), "text/html"@) || contains_text(
            ascii_lowercase(value),
            "*/*"@,
        ),
        None => false,
    }
}

/// What is left of a URI once scheme and host are gone: see
/// `without_authority`.
pub fn strip_authority<'a>(uri: &'a str) -> (r: &'a str)
    ensures
        r@ == without_authority(uri@),
{
    let chars = chars_of(uri);
    let marker = chars_of("://");
    let at = find_text(&chars, &marker, 0);
    if at >= chars.len() {
        return uri;
    }
    let mut j: usize = 0;
    while j < at
        invariant
            j <= at < chars.len(),
            chars@ == uri@,
            at == first_match(uri@, "://"@, 0),
            forall|k: int| 0 <= k < j ==> !ends_scheme(#[trigger] chars@[k]),
        decreases at - j,
    {
        if chars[j] == '/' || chars[j] == '?' || chars[j] == '#' {
            assert(ends_scheme(chars@[j as int]));
            return uri;
        }
        j += 1;
    }
    proof {
        lemma_first_match(chars@, marker@, 0);
    }
    let rest = uri.substring_char(at + marker.len(), chars.len());
    let rest_chars = chars_of(rest);
    let slash = find_text(&rest_chars, &chars_of("/"), 0);
    if slash < rest_chars.len() {
        rest.substring_char(slash, rest_chars.len())
    } else {
        "/"
    }
}

/// The pathname of the request's URI, without query and fragment; never
/// empty.
pub fn request_path(request: &Request) -> (r: String)
    ensures
        r@ == pathname(request.uri@),
        r@.len() > 0,
{
    let path = prefix_before(prefix_before(strip_authority(request.uri.as_str()), "?"), "#");
    proof {
        reveal_strlit("/");
    }
    if path.is_empty() {
        String::from_str("/")
    } else {
        String::from_str(path)
    }
}

/// The asset that the request asks for: see `asset_path`.
pub fn requested_asset(request: &Request) -> (r: String)
    ensures
        r@ == asset_path(request.uri@),
        r@.len() > 0,
{
    let mut path = request_path(request);
    if same_text(path.as_str(), "/editor") {
        path = String::from_str("/");
    }
    proof {
        reveal_strlit("/");
    }
    let chars = chars_of(path.as_str());
    if chars[chars.len() - 1] == '/' {
        path.append("index.html");
    }
    path
}

/// Whether the request asks for an HTML document: see `accepts_html`.
pub fn wants_html(request: &Request) -> (r: bool)
    ensures
        r == accepts_html(request@.accept),
{
    match &request.accept {
        None => false,
        Some(value) => {
            let lower = lowercase_chars(&chars_of(value.as_str()));
            let html = chars_of("text/html");
            let any = chars_of("*/*");
            proof {
                reveal_strlit("text/html");
                reveal_strlit("*/*");
                lemma_contains_text(lower@, html@);
                lemma_contains_text(lower@, any@);
            }
            find_text(&lower, &html, 0) < lower.len() || find_text(&lower, &any, 0) < lower.len()
        },
    }
}

/// A pathname holds neither query nor fragment: no `?` and no `#`. It
/// starts with `/` for a URI with a scheme marker, for an empty one, and
/// for one that starts with `/`, `?` or `#`.
pub proof fn lemma_pathname_shape(uri: Seq<char>)
    ensures
        pathname(uri).len() > 0,
        !pathname(uri).contains('?'),
        !pathname(uri).contains('#'),
        scheme_marker(uri) < uri.len() || uri.len() == 0 || ends_scheme(uri[0]) ==> pathname(
            uri,
        )[0] == '/',
{
    reveal_strlit("://");
    reveal_strlit("/");
    reveal_strlit("?");
    reveal_strlit("#");
    assert("?"@ =~= seq!['?']);
    assert("#"@ =~= seq!['#']);
    let whole = without_authority(uri);
    let no_query = before_first(whole, "?"@);
    let no_fragment = before_first(no_query, "#"@);
    lemma_before_first_char(whole, '?');
    lemma_before_first_char(no_query, '#');
    lemma_first_match(whole, "?"@, 0);
    lemma_first_match(no_query, "#"@, 0);
    assert forall|j: int| 0 <= j < no_fragment.len() implies no_fragment[j] != '?' by {
        assert(no_fragment[j] == no_query[j]);
    }
    if scheme_marker(uri) < uri.len() {
        let rest = uri.skip(scheme_marker(uri) + "://"@.len());
        lemma_first_match(rest, "/"@, 0);
        assert(whole[0] == '/');
    }
    if whole.len() > 0 && no_fragment.len() > 0 {
        assert(no_fragment[0] == no_query[0] && no_query[0] == whole[0]);
    }
}

} // verus!
