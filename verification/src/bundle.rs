//! The embedded bundle: a read-only tree of files baked into the program,
//! looked up by relative path.

use crate::text::{strip_leading_slash, without_leading_slash};
use vstd::prelude::*;
use vstd::string::StringExecFns;

verus! {

/// `include_dir::Dir`, a directory of embedded files. Its fields stay
/// hidden: the bundle is read through `bundle_files` only.
#[verifier::external_type_specification]
#[verifier::external_body]
pub struct ExDir<'a>(include_dir::Dir<'a>);

/// The files of a bundle: each path text under which a lookup finds a file,
/// with that file's bytes.
pub uninterp spec fn bundle_files(bundle: include_dir::Dir<'_>) -> Map<Seq<char>, Seq<u8>>;

/// Looks `path` up with `include_dir::Dir::get_file` and copies what
/// `File::contents` gives. The contract claims that the lookup is a
/// function of the bundle and the path text alone: a file is handed back
/// exactly for the paths that `bundle_files` holds, with the bytes held
/// there.
#[verifier::external_body]
pub(crate) fn bundle_file(bundle: &include_dir::Dir<'_>, path: &str) -> (r: Option<Vec<u8>>)
    ensures
        match r {
            Some(bytes) => bundle_files(*bundle).contains_key(path@) && bundle_files(
                *bundle,
            )[path@] == bytes@,
            None => !bundle_files(*bundle).contains_key(path@),
        },
{
    bundle.get_file(path).map(|file| file.contents().to_vec())
}

/// What a lookup of `path` in a bundle's files gives.
pub open spec fn file_in(files: Map<Seq<char>, Seq<u8>>, path: Seq<char>) -> Option<Seq<u8>> {
    if files.contains_key(path) {
        Some(files[path])
    } else {
        None
    }
}

/// The path text under which the bundle holds the asset of a request path:
/// the path without one leading slash, `index.html` where nothing is left.
pub open spec fn embedded_key(asset_path: Seq<char>) -> Seq<char> {
    let relative = without_leading_slash(asset_path);
    if relative.len() == 0 {
        "index.html"@
    } else {
        relative
    }
}

/// The path text under which the bundle holds the asset of a request path.
pub fn embedded_path(asset_path: &str) -> (r: String)
    ensures
        r@ == embedded_key(asset_path@),
{
    let relative = strip_leading_slash(asset_path);
    if relative.is_empty() {
        String::from_str("index.html")
    } else {
        String::from_str(relative)
    }
}

} // verus!
