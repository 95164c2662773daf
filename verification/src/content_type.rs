//! The table from file extension to `Content-Type`.

use crate::text::{
    ascii_lower, ascii_lowercase, before_first, chars_are, chars_of, lemma_before_first_char,
    lowercase_chars, prefix_before,
};
use vstd::prelude::*;
use vstd::string::StringExecFns;

verus! {

/// The `Content-Type` of files whose extension the table does not hold.
pub open spec fn fallback_content_type() -> Seq<char> {
    "application/octet-stream"@
}

/// The table: the `Content-Type` header value that stands under a key. The
/// keys are extensions in lower case; an extension is looked up by its
/// ASCII lower-case form, so that `HTML` finds what `html` finds.
pub open spec fn content_type_of(ext: Seq<char>) -> Seq<char> {
    if ext == "html"@ {
        "text/html; charset=utf-8"@
    } else if ext == "js"@ {
        "application/javascript; charset=utf-8"@
    } else if ext == "css"@ {
        "text/css; charset=utf-8"@
    } else if ext == "json"@ {
        "application/json; charset=utf-8"@
    } else if ext == "wasm"@ {
        "application/wasm"@
    } else if ext == "svg"@ {
        "image/svg+xml"@
    } else if ext == "png"@ {
        "image/png"@
    } else if ext == "jpg"@ || ext == "jpeg"@ {
        "image/jpeg"@
    } else if ext == "webp"@ {
        "image/webp"@
    } else if ext == "avif"@ {
        "image/avif"@
    } else if ext == "ico"@ {
        "image/x-icon"@
    } else if ext == "woff2"@ {
        "font/woff2"@
    } else if ext == "map"@ {
        "application/json; charset=utf-8"@
    } else if ext == "txt"@ {
        "text/plain; charset=utf-8"@
    } else {
        fallback_content_type()
    }
}

/// Whether the table holds the key `ext`.
pub open spec fn is_known_extension(ext: Seq<char>) -> bool {
    ||| ext == "html"@
    ||| ext == "js"@
    ||| ext == "css"@
    ||| ext == "json"@
    ||| ext == "wasm"@
    ||| ext == "svg"@
    ||| ext == "png"@
    ||| ext == "jpg"@
    ||| ext == "jpeg"@
    ||| ext == "webp"@
    ||| ext == "avif"@
    ||| ext == "ico"@
    ||| ext == "woff2"@
    ||| ext == "map"@
    ||| ext == "txt"@
}

/// Whether two extensions name the same kind of file, so that the table
/// gives both one type: `jpg` and `jpeg`, `json` and `map`.
pub open spec fn same_kind(a: Seq<char>, b: Seq<char>) -> bool {
    ||| a == b
    ||| (a == "jpg"@ && b == "jpeg"@)
    ||| (a == "jpeg"@ && b == "jpg"@)
    ||| (a == "json"@ && b == "map"@)
    ||| (a == "map"@ && b == "json"@)
}

/// The MIME type of a `Content-Type` value without its parameters: the text
/// before the first `;`.
pub open spec fn mime_type_of(content_type: Seq<char>) -> Seq<char> {
    before_first(content_type, ";"@)
}

/// The `Content-Type` header value for a file extension, whatever its
/// case; unknown and empty extensions get `application/octet-stream`.
pub fn content_type_for_ext(ext: &str) -> (r: &'static str)
    ensures
        r@ == content_type_of(ascii_lowercase(ext@)),
        !is_known_extension(ascii_lowercase(ext@)) ==> r@ == fallback_content_type(),
{
    let key = lowercase_chars(&chars_of(ext));
    if chars_are(&key, "html") {
        "text/html; charset=utf-8"
    } else if chars_are(&key, "js") {
        "application/javascript; charset=utf-8"
    } else if chars_are(&key, "css") {
        "text/css; charset=utf-8"
    } else if chars_are(&key, "json") {
        "application/json; charset=utf-8"
    } else if chars_are(&key, "wasm") {
        "application/wasm"
    } else if chars_are(&key, "svg") {
        "image/svg+xml"
    } else if chars_are(&key, "png") {
        "image/png"
    } else if chars_are(&key, "jpg") || chars_are(&key, "jpeg") {
        "image/jpeg"
    } else if chars_are(&key, "webp") {
        "image/webp"
    } else if chars_are(&key, "avif") {
        "image/avif"
    } else if chars_are(&key, "ico") {
        "image/x-icon"
    } else if chars_are(&key, "woff2") {
        "font/woff2"
    } else if chars_are(&key, "map") {
        "application/json; charset=utf-8"
    } else if chars_are(&key, "txt") {
        "text/plain; charset=utf-8"
    } else {
        "application/octet-stream"
    }
}

/// The MIME type of a `Content-Type` value, without a `charset` or any
/// other parameter.
pub fn mime_type(content_type: &str) -> (r: String)
    ensures
        r@ == mime_type_of(content_type@),
{
    String::from_str(prefix_before(content_type, ";"))
}

/// The MIME type of a `Content-Type` value is its start and holds no `;`:
/// no parameter is left in it.
pub proof fn lemma_mime_type_is_bare(content_type: Seq<char>)
    ensures
        mime_type_of(content_type).is_prefix_of(content_type),
        !mime_type_of(content_type).contains(';'),
{
    reveal_strlit(";");
    assert(";"@ =~= seq![';']);
    lemma_before_first_char(content_type, ';');
}

/// Makes the characters of the table's keys and values known.
proof fn reveal_table()
    ensures
        "html"@.len() == 4,
        "js"@.len() == 2,
        "css"@.len() == 3 && "css"@[0] == 'c',
        "json"@.len() == 4 && "json"@[0] == 'j' && "json"@[1] == 's',
        "wasm"@.len() == 4 && "wasm"@[0] == 'w' && "wasm"@[1] == 'a',
        "svg"@.len() == 3 && "svg"@[0] == 's',
        "png"@.len() == 3 && "png"@[0] == 'p',
        "jpg"@.len() == 3 && "jpg"@[0] == 'j',
        "jpeg"@.len() == 4 && "jpeg"@[0] == 'j' && "jpeg"@[1] == 'p',
        "webp"@.len() == 4 && "webp"@[0] == 'w' && "webp"@[1] == 'e',
        "avif"@.len() == 4 && "avif"@[0] == 'a',
        "ico"@.len() == 3 && "ico"@[0] == 'i',
        "woff2"@.len() == 5,
        "map"@.len() == 3 && "map"@[0] == 'm',
        "txt"@.len() == 3 && "txt"@[0] == 't',
        "html"@[0] == 'h',
        "text/html; charset=utf-8"@.len() == 24 && "text/html; charset=utf-8"@[0] == 't',
        "application/javascript; charset=utf-8"@.len() == 37,
        "text/css; charset=utf-8"@.len() == 23,
        "application/json; charset=utf-8"@.len() == 31,
        "application/wasm"@.len() == 16,
        "image/svg+xml"@.len() == 13,
        "image/png"@.len() == 9,
        "image/jpeg"@.len() == 10 && "image/jpeg"@[6] == 'j',
        "image/webp"@.len() == 10 && "image/webp"@[6] == 'w',
        "image/avif"@.len() == 10 && "image/avif"@[6] == 'a',
        "image/x-icon"@.len() == 12,
        "font/woff2"@.len() == 10 && "font/woff2"@[6] == 'o',
        "text/plain; charset=utf-8"@.len() == 25,
        "application/octet-stream"@.len() == 24 && "application/octet-stream"@[0] == 'a',
{
    reveal_strlit("html");
    reveal_strlit("js");
    reveal_strlit("css");
    reveal_strlit("json");
    reveal_strlit("wasm");
    reveal_strlit("svg");
    reveal_strlit("png");
    reveal_strlit("jpg");
    reveal_strlit("jpeg");
    reveal_strlit("webp");
    reveal_strlit("avif");
    reveal_strlit("ico");
    reveal_strlit("woff2");
    reveal_strlit("map");
    reveal_strlit("txt");
    reveal_strlit("text/html; charset=utf-8");
    reveal_strlit("application/javascript; charset=utf-8");
    reveal_strlit("text/css; charset=utf-8");
    reveal_strlit("application/json; charset=utf-8");
    reveal_strlit("application/wasm");
    reveal_strlit("image/svg+xml");
    reveal_strlit("image/png");
    reveal_strlit("image/jpeg");
    reveal_strlit("image/webp");
    reveal_strlit("image/avif");
    reveal_strlit("image/x-icon");
    reveal_strlit("font/woff2");
    reveal_strlit("text/plain; charset=utf-8");
    reveal_strlit("application/octet-stream");
}

/// Extensions of different kinds get different `Content-Type` values,
/// whatever their case: the table keeps the kinds of file apart.
pub proof fn lemma_content_types_distinct(a: Seq<char>, b: Seq<char>)
    requires
        is_known_extension(ascii_lowercase(a)),
        is_known_extension(ascii_lowercase(b)),
        !same_kind(ascii_lowercase(a), ascii_lowercase(b)),
    ensures
        content_type_of(ascii_lowercase(a)) != content_type_of(ascii_lowercase(b)),
{
    reveal_table();
}

/// An extension gets the fallback type exactly when the table does not
/// hold its lower-case form.
pub proof fn lemma_fallback_iff_unknown(ext: Seq<char>)
    ensures
        is_known_extension(ascii_lowercase(ext)) <==> content_type_of(ascii_lowercase(ext))
            != fallback_content_type(),
{
    reveal_table();
}

/// The keys of the table are in lower case: an extension that is written
/// as a key is looked up under itself.
pub proof fn lemma_keys_are_lower_case(ext: Seq<char>)
    requires
        is_known_extension(ext),
    ensures
        ascii_lowercase(ext) == ext,
{
    reveal_strlit("html");
    reveal_strlit("js");
    reveal_strlit("css");
    reveal_strlit("json");
    reveal_strlit("wasm");
    reveal_strlit("svg");
    reveal_strlit("png");
    reveal_strlit("jpg");
    reveal_strlit("jpeg");
    reveal_strlit("webp");
    reveal_strlit("avif");
    reveal_strlit("ico");
    reveal_strlit("woff2");
    reveal_strlit("map");
    reveal_strlit("txt");
    assert forall|i: int| 0 <= i < ext.len() implies ascii_lower(ext[i]) == ext[i] by {
        assert('a' <= ext[i] <= 'z' || ext[i] == '2');
    }
    assert(ascii_lowercase(ext) =~= ext);
}

/// The case of an extension does not matter: two extensions with one
/// lower-case form get one `Content-Type`.
pub proof fn lemma_case_does_not_matter(a: Seq<char>, b: Seq<char>)
    requires
        ascii_lowercase(a) == ascii_lowercase(b),
    ensures
        content_type_of(ascii_lowercase(a)) == content_type_of(ascii_lowercase(b)),
{
}

} // verus!
