//! From a URL path to a file path below the static root.
//!
//! The URL path is percent-decoded and normalised before anything is joined
//! onto the root, so that an encoded `..` is seen as what it is.

use crate::path::{
    all_plain, components_extension, extension_of_name, extension_of_path,
    lemma_normalized_names, lemma_rejected_iff_escaping, name_extension, names_of,
    normalize_relative_path, normalized, path_components, rejects_at, RelativePath,
};
use crate::text::{strip_leading_slash, without_leading_slash};
use vstd::prelude::*;
use vstd::string::StringExecFns;
use vstd::utf8::{
    char_u32_cast, decode_utf8, encode_scalar, encode_utf8, encode_utf8_decode_utf8,
    encode_utf8_valid_utf8, has_width_1_encoding, has_width_2_encoding, has_width_3_encoding,
    last_continuation_byte, leading_byte_width_1, leading_byte_width_2, leading_byte_width_3,
    leading_byte_width_4, second_last_continuation_byte, third_last_continuation_byte, valid_utf8,
};

verus! {

/// Whether a byte is an ASCII hexadecimal digit, in either case.
pub open spec fn is_hex_digit(b: u8) -> bool {
    ||| 0x30 <= b <= 0x39
    ||| 0x41 <= b <= 0x46
    ||| 0x61 <= b <= 0x66
}

/// The number that a hexadecimal digit stands for.
pub open spec fn hex_value(b: u8) -> int {
    if b <= 0x39 {
        b - 0x30
    } else if b <= 0x46 {
        b - 0x41 + 10
    } else {
        b - 0x61 + 10
    }
}

/// The bytes that percent-decoding gives: each `%` that two hexadecimal
/// digits follow becomes the byte they spell, every other byte stays.
pub open spec fn percent_decoded(bytes: Seq<u8>) -> Seq<u8>
    decreases bytes.len(),
{
    if bytes.len() == 0 {
        Seq::empty()
    } else if bytes[0] == 0x25 && bytes.len() >= 3 && is_hex_digit(bytes[1]) && is_hex_digit(
        bytes[2],
    ) {
        seq![(hex_value(bytes[1]) * 16 + hex_value(bytes[2])) as u8] + percent_decoded(
            bytes.skip(3),
        )
    } else {
        seq![bytes[0]] + percent_decoded(bytes.skip(1))
    }
}

/// The text that percent-decoding gives, or `None` where the decoded bytes
/// are not well-formed UTF-8.
pub open spec fn percent_decoded_text(text: Seq<char>) -> Option<Seq<char>> {
    let bytes = percent_decoded(encode_utf8(text));
    if valid_utf8(bytes) {
        Some(decode_utf8(bytes))
    } else {
        None
    }
}

/// Percent-decodes `input` with `percent_encoding::percent_decode_str` and
/// reads the result as UTF-8 with `PercentDecode::decode_utf8`. The
/// contract claims what that crate documents: every `%` followed by two
/// hexadecimal digits is replaced by the byte they spell, all else stays,
/// and the call fails exactly where the bytes so obtained are not
/// well-formed UTF-8.
#[verifier::external_body]
fn percent_decode_utf8(input: &str) -> (r: Option<String>)
    ensures
        match r {
            Some(text) => percent_decoded_text(input@) == Some(text@),
            None => percent_decoded_text(input@) is None,
        },
{
    percent_encoding::percent_decode_str(input).decode_utf8().ok().map(|text| text.into_owned())
}

/// A file path as a specification value: a root and the plain names that
/// lead from it to the file.
pub struct FilePath {
    /// The directory that the path starts from.
    pub root: Seq<char>,
    /// The names below the root, outermost first.
    pub segments: Seq<Seq<char>>,
}

/// A file path below a root directory: the root as it was given, and a
/// relative path of plain names, so that it names nothing outside the root.
#[derive(Debug)]
pub struct ResolvedPath {
    /// The directory that the path starts from.
    pub root: String,
    /// The names that lead from the root to the file.
    pub relative: RelativePath,
}

impl View for ResolvedPath {
    type V = FilePath;

    open spec fn view(&self) -> FilePath {
        FilePath { root: self.root@, segments: self.relative@ }
    }
}

/// The file path that a URL path resolves to below `root`: the URL path
/// loses one leading slash, is percent-decoded and normalised. `None`
/// where decoding fails or normalising rejects the path.
pub open spec fn resolved(root: Seq<char>, url_path: Seq<char>) -> Option<FilePath> {
    match percent_decoded_text(without_leading_slash(url_path)) {
        None => None,
        Some(text) => match normalized(path_components(text)) {
            None => None,
            Some(segments) => Some(FilePath { root, segments }),
        },
    }
}

/// The names of a path written after one another, a `/` before each.
pub open spec fn joined(segments: Seq<Seq<char>>) -> Seq<char>
    decreases segments.len(),
{
    if segments.len() == 0 {
        Seq::empty()
    } else {
        joined(segments.drop_last()) + seq!['/'] + segments.last()
    }
}

/// Whether a file path lies below `root`: it starts from `root` and goes
/// on with plain names only, none of which says "up" or holds a `/`.
pub open spec fn below(path: FilePath, root: Seq<char>) -> bool {
    &&& path.root == root
    &&& all_plain(path.segments)
}

/// A file path written out: the root, then each name after a `/`.
pub open spec fn path_text(path: FilePath) -> Seq<char> {
    path.root + joined(path.segments)
}

/// The path of `index.html` in the directory `path`.
pub open spec fn index_under(path: FilePath) -> FilePath {
    FilePath { root: path.root, segments: path.segments.push("index.html"@) }
}

/// The extension of the file that `path` names: that of its last name, or
/// of the root itself where no name follows it.
pub open spec fn file_extension(path: FilePath) -> Seq<char> {
    if path.segments.len() > 0 {
        name_extension(path.segments.last())
    } else {
        components_extension(path_components(path.root))
    }
}

/// Resolves a URL path to a file path below `static_root`.
///
/// One leading slash is dropped, the rest is percent-decoded as UTF-8 and
/// normalised. The result is `None` exactly where decoding fails or the
/// decoded path would leave the root; otherwise it starts with the root as
/// given and goes on with plain names only.
pub fn safe_resolve_file_path(static_root: &str, url_path: &str) -> (r: Option<ResolvedPath>)
    ensures
        match r {
            Some(path) => resolved(static_root@, url_path@) == Some(path@),
            None => resolved(static_root@, url_path@) is None,
        },
        r is Some ==> below(r->0@, static_root@),
{
    let decoded = match percent_decode_utf8(strip_leading_slash(url_path)) {
        Some(text) => text,
        None => {
            return None;
        },
    };
    match normalize_relative_path(decoded.as_str()) {
        Some(relative) => Some(ResolvedPath { root: String::from_str(static_root), relative }),
        None => None,
    }
}

/// A path that resolves lies below the root: it starts from the root as
/// given, every name after it is plain, and the text of the path starts
/// with the text of the root.
pub proof fn lemma_resolved_below_root(root: Seq<char>, url_path: Seq<char>)
    requires
        resolved(root, url_path) is Some,
    ensures
        below(resolved(root, url_path)->0, root),
        root.is_prefix_of(path_text(resolved(root, url_path)->0)),
{
    let text = percent_decoded_text(without_leading_slash(url_path))->0;
    lemma_normalized_names(path_components(text));
}

/// `index.html` in a directory below the root lies below the root.
pub proof fn lemma_index_below_root(path: FilePath, root: Seq<char>)
    requires
        below(path, root),
    ensures
        below(index_under(path), root),
{
    crate::path::lemma_index_is_plain();
}

/// A URL path resolves exactly when it decodes and no component of the
/// decoded path is a root, a prefix, or a `..` that would climb above the
/// static root: an encoded `..` is turned away like a plain one.
pub proof fn lemma_resolved_iff_contained(root: Seq<char>, url_path: Seq<char>)
    ensures
        resolved(root, url_path) is Some <==> {
            &&& percent_decoded_text(without_leading_slash(url_path)) is Some
            &&& forall|i: int|
                !rejects_at(
                    path_components(percent_decoded_text(without_leading_slash(url_path))->0),
                    i,
                )
        },
{
    match percent_decoded_text(without_leading_slash(url_path)) {
        Some(text) => {
            lemma_rejected_iff_escaping(path_components(text));
        },
        None => {},
    }
}

/// Bytes that hold no `%` are what percent-decoding gives for them.
pub proof fn lemma_no_percent_unchanged(bytes: Seq<u8>)
    requires
        !bytes.contains(0x25),
    ensures
        percent_decoded(bytes) == bytes,
    decreases bytes.len(),
{
    if bytes.len() > 0 {
        let rest = bytes.skip(1);
        assert(!rest.contains(0x25)) by {
            assert forall|j: int| 0 <= j < rest.len() implies rest[j] != 0x25 by {
                assert(rest[j] == bytes[j + 1]);
            }
        }
        lemma_no_percent_unchanged(rest);
        assert(seq![bytes[0]] + rest =~= bytes);
    }
}

/// The bytes of a multi-byte encoding all have their high bit set, and the
/// one byte of a one-byte encoding is the scalar itself: so `%` stands in
/// the encoding of no scalar but `%`.
proof fn lemma_encoded_bytes(scalar: u32)
    by (bit_vector)
    ensures
        scalar <= 0x7F ==> (scalar & 0x7F) as u8 == scalar,
        0xC0u8 | ((scalar >> 6) & 0x1F) as u8 >= 0x80u8,
        0xE0u8 | ((scalar >> 12) & 0x0F) as u8 >= 0x80u8,
        0xF0u8 | ((scalar >> 18) & 0x7) as u8 >= 0x80u8,
        0x80u8 | (scalar & 0x3F) as u8 >= 0x80u8,
        0x80u8 | ((scalar >> 6) & 0x3F) as u8 >= 0x80u8,
        0x80u8 | ((scalar >> 12) & 0x3F) as u8 >= 0x80u8,
{
}

/// The UTF-8 encoding of a text that holds no `%` holds no `%` byte.
pub proof fn lemma_encoding_has_no_percent(text: Seq<char>)
    requires
        !text.contains('%'),
    ensures
        !encode_utf8(text).contains(0x25),
    decreases text.len(),
{
    if text.len() > 0 {
        let first = encode_scalar(text[0] as u32);
        let rest = text.drop_first();
        assert(!rest.contains('%')) by {
            assert forall|j: int| 0 <= j < rest.len() implies rest[j] != '%' by {
                assert(rest[j] == text[j + 1]);
            }
        }
        lemma_encoding_has_no_percent(rest);
        let scalar = text[0] as u32;
        lemma_encoded_bytes(scalar);
        assert(scalar != 0x25) by {
            char_u32_cast(text[0], scalar);
            char_u32_cast('%', 0x25);
        }
        assert forall|j: int| 0 <= j < first.len() implies first[j] != 0x25 by {
            if has_width_1_encoding(scalar) {
                assert(first[0] == leading_byte_width_1(scalar));
            } else if has_width_2_encoding(scalar) {
                assert(first[0] == leading_byte_width_2(scalar));
                assert(first[1] == last_continuation_byte(scalar));
            } else if has_width_3_encoding(scalar) {
                assert(first[0] == leading_byte_width_3(scalar));
                assert(first[1] == second_last_continuation_byte(scalar));
                assert(first[2] == last_continuation_byte(scalar));
            } else {
                assert(first[0] == leading_byte_width_4(scalar));
                assert(first[1] == third_last_continuation_byte(scalar));
                assert(first[2] == second_last_continuation_byte(scalar));
                assert(first[3] == last_continuation_byte(scalar));
            }
        }
        assert forall|j: int| 0 <= j < encode_utf8(text).len() implies encode_utf8(text)[j]
            != 0x25 by {
            if j >= first.len() {
                assert(encode_utf8(text)[j] == encode_utf8(rest)[j - first.len()]);
            } else {
                assert(encode_utf8(text)[j] == first[j]);
            }
        }
    }
}

/// A text that holds no `%` decodes to itself.
pub proof fn lemma_plain_text_decodes_to_itself(text: Seq<char>)
    requires
        !text.contains('%'),
    ensures
        percent_decoded_text(text) == Some(text),
{
    lemma_encoding_has_no_percent(text);
    lemma_no_percent_unchanged(encode_utf8(text));
    encode_utf8_valid_utf8(text);
    encode_utf8_decode_utf8(text);
}

impl ResolvedPath {
    /// The path of `index.html` in this directory.
    pub fn join_index(self) -> (r: ResolvedPath)
        ensures
            r@ == index_under(self@),
    {
        let ResolvedPath { root, relative } = self;
        ResolvedPath { root, relative: relative.join_index() }
    }

    /// The extension of the file that this path names.
    pub fn extension(&self) -> (r: String)
        ensures
            r@ == file_extension(self@),
    {
        let segments = self.relative.segments();
        let n = segments.len();
        if n > 0 {
            extension_of_name(segments[n - 1].as_str())
        } else {
            extension_of_path(self.root.as_str())
        }
    }

    /// The path written out: the root, then each name after a `/`.
    pub fn to_path_string(&self) -> (r: String)
        ensures
            r@ == path_text(self@),
    {
        let segments = self.relative.segments();
        let ghost names = names_of(segments@);
        let mut text = self.root.clone();
        let mut i: usize = 0;
        while i < segments.len()
            invariant
                i <= segments.len(),
                names == names_of(segments@),
                text@ == self.root@ + joined(names.take(i as int)),
            decreases segments.len() - i,
        {
            proof {
                reveal_strlit("/");
                assert(names.take(i + 1).drop_last() =~= names.take(i as int));
            }
            text.append("/");
            text.append(segments[i].as_str());
            i += 1;
        }
        assert(names.take(i as int) =~= names);
        text
    }
}

} // verus!
