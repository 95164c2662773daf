//! Path normalisation: from the components of a path to a relative path
//! that cannot leave the directory it is joined onto.
//!
//! A text is decomposed by the platform's own path rules, so that the
//! library and the file system agree on what a path means. What comes back
//! is not taken on trust: a name is kept only if it is plain, that is, not
//! empty, neither `.` nor `..`, and without a `/`.

use crate::text::chars_of;
use vstd::prelude::*;
use vstd::string::StrSliceExecFns;
use vstd::string::StringExecFns;

verus! {

/// One component of a path, as a specification value.
pub enum PathPart {
    /// A drive letter or another platform prefix.
    Prefix,
    /// The root directory marker.
    RootDir,
    /// The current directory, `.`.
    CurDir,
    /// The parent directory, `..`.
    ParentDir,
    /// A plain file or directory name.
    Normal(Seq<char>),
}

/// One component of a path.
#[derive(Debug)]
pub enum PathComponent {
    /// A drive letter or another platform prefix.
    Prefix,
    /// The root directory marker.
    RootDir,
    /// The current directory, `.`.
    CurDir,
    /// The parent directory, `..`.
    ParentDir,
    /// A plain file or directory name.
    Normal(String),
}

impl View for PathComponent {
    type V = PathPart;

    open spec fn view(&self) -> PathPart {
        match self {
            PathComponent::Prefix => PathPart::Prefix,
            PathComponent::RootDir => PathPart::RootDir,
            PathComponent::CurDir => PathPart::CurDir,
            PathComponent::ParentDir => PathPart::ParentDir,
            PathComponent::Normal(name) => PathPart::Normal(name@),
        }
    }
}

/// The specification values of a run of components.
pub open spec fn parts_of(components: Seq<PathComponent>) -> Seq<PathPart> {
    Seq::new(components.len(), |i: int| components[i]@)
}

/// The names of a run of strings.
pub open spec fn names_of(segments: Seq<String>) -> Seq<Seq<char>> {
    Seq::new(segments.len(), |i: int| segments[i]@)
}

/// Whether a name is plain: not empty, neither `.` nor `..`, and without a
/// `/`. A plain name below a directory names something in that directory.
pub open spec fn is_plain_name(name: Seq<char>) -> bool {
    &&& name.len() > 0
    &&& name != seq!['.']
    &&& name != seq!['.', '.']
    &&& !name.contains('/')
}

/// Whether every name of a run is plain.
pub open spec fn all_plain(names: Seq<Seq<char>>) -> bool {
    forall|i: int| 0 <= i < names.len() ==> is_plain_name(#[trigger] names[i])
}

/// A relative path made of plain names only: it has no way to say "up",
/// "root" or "drive", so joining it onto a directory stays below it.
#[derive(Debug)]
pub struct RelativePath {
    segments: Vec<String>,
}

impl View for RelativePath {
    type V = Seq<Seq<char>>;

    closed spec fn view(&self) -> Seq<Seq<char>> {
        names_of(self.segments@)
    }
}

/// What normalising a run of components gives: the names that are left
/// after `.` is dropped and each `..` has removed the name before it.
/// `None` where a `..` finds nothing to remove, where a root or a prefix
/// occurs, or where a name is not plain.
pub open spec fn normalized(parts: Seq<PathPart>) -> Option<Seq<Seq<char>>>
    decreases parts.len(),
{
    if parts.len() == 0 {
        Some(Seq::empty())
    } else {
        match normalized(parts.drop_last()) {
            None => None,
            Some(kept) => match parts.last() {
                PathPart::Normal(name) => if is_plain_name(name) {
                    Some(kept.push(name))
                } else {
                    None
                },
                PathPart::CurDir => Some(kept),
                PathPart::ParentDir => if kept.len() == 0 {
                    None
                } else {
                    Some(kept.drop_last())
                },
                PathPart::RootDir => None,
                PathPart::Prefix => None,
            },
        }
    }
}

/// Whether normalisation gives up at component `i`: it is a root, a
/// prefix, a name that is not plain, or a `..` that finds no name left to
/// remove.
pub open spec fn rejects_at(parts: Seq<PathPart>, i: int) -> bool {
    &&& 0 <= i < parts.len()
    &&& match parts[i] {
        PathPart::RootDir => true,
        PathPart::Prefix => true,
        PathPart::Normal(name) => !is_plain_name(name),
        PathPart::ParentDir => normalized(parts.take(i)) == Some(Seq::<Seq<char>>::empty()),
        PathPart::CurDir => false,
    }
}

/// The components that spell out a run of names.
pub open spec fn plain_parts(names: Seq<Seq<char>>) -> Seq<PathPart> {
    Seq::new(names.len(), |i: int| PathPart::Normal(names[i]))
}

/// The position of the last `c` in `s`, or `-1` where `s` holds none.
pub open spec fn last_index_of(s: Seq<char>, c: char) -> int
    decreases s.len(),
{
    if s.len() == 0 {
        -1
    } else if s.last() == c {
        s.len() - 1
    } else {
        last_index_of(s.drop_last(), c)
    }
}

/// The extension of a file name: what follows its last dot, unless that dot
/// is the first character or the name holds none; then the extension is
/// empty.
pub open spec fn name_extension(name: Seq<char>) -> Seq<char> {
    let dot = last_index_of(name, '.');
    if dot > 0 {
        name.skip(dot + 1)
    } else {
        Seq::empty()
    }
}

/// The extension of the file that a run of components names: that of the
/// last component where it is a name, else empty.
pub open spec fn components_extension(parts: Seq<PathPart>) -> Seq<char> {
    if parts.len() > 0 && parts.last() is Normal {
        name_extension(parts.last()->Normal_0)
    } else {
        Seq::empty()
    }
}

/// The components into which the path rules of the platform decompose
/// `path`: what `std::path::Path::components` yields for it, one after
/// another.
pub uninterp spec fn path_components(path: Seq<char>) -> Seq<PathPart>;

/// Once a prefix of the components is rejected, so is the whole.
pub proof fn lemma_rejected_prefix(parts: Seq<PathPart>, n: int)
    requires
        0 <= n <= parts.len(),
        normalized(parts.take(n)) is None,
    ensures
        normalized(parts) is None,
    decreases parts.len() - n,
{
    if n < parts.len() {
        assert(parts.take(n + 1).drop_last() =~= parts.take(n));
        lemma_rejected_prefix(parts, n + 1);
    } else {
        assert(parts.take(n) =~= parts);
    }
}

/// A run of components is rejected exactly when one of them is a root, a
/// prefix or a name that is not plain, or is a `..` that would climb above
/// the start.
pub proof fn lemma_rejected_iff_escaping(parts: Seq<PathPart>)
    ensures
        normalized(parts) is None <==> exists|i: int| rejects_at(parts, i),
    decreases parts.len(),
{
    if parts.len() > 0 {
        let front = parts.drop_last();
        let n = parts.len() - 1;
        lemma_rejected_iff_escaping(front);
        assert forall|i: int| 0 <= i < n implies rejects_at(parts, i) == rejects_at(front, i) by {
            assert(parts.take(i) =~= front.take(i));
        }
        if normalized(parts) is None && normalized(front) is Some {
            if parts[n] is ParentDir {
                assert(normalized(front)->0 =~= Seq::<Seq<char>>::empty());
            }
            assert(rejects_at(parts, n));
        }
    }
}

/// A normalised path holds plain names only, each of them the name of a
/// component of the input, and no more names than there are components:
/// normalising adds nothing of its own, and nothing in its result says
/// "up" or "root".
pub proof fn lemma_normalized_names(parts: Seq<PathPart>)
    requires
        normalized(parts) is Some,
    ensures
        all_plain(normalized(parts)->0),
        normalized(parts)->0.len() <= parts.len(),
        forall|k: int|
            0 <= k < normalized(parts)->0.len() ==> exists|i: int|
                0 <= i < parts.len() && parts[i] == PathPart::Normal(
                    #[trigger] normalized(parts)->0[k],
                ),
    decreases parts.len(),
{
    if parts.len() > 0 {
        let front = parts.drop_last();
        let n = parts.len() - 1;
        lemma_normalized_names(front);
        let kept = normalized(front)->0;
        let out = normalized(parts)->0;
        assert forall|k: int| 0 <= k < out.len() implies exists|i: int|
            0 <= i < parts.len() && parts[i] == PathPart::Normal(#[trigger] out[k]) by {
            if k < kept.len() && out[k] == kept[k] {
                let i = choose|i: int| 0 <= i < front.len() && front[i] == PathPart::Normal(kept[k]);
                assert(parts[i] == PathPart::Normal(out[k]));
            } else {
                assert(parts[n] == PathPart::Normal(out[k]));
            }
        }
    }
}

/// Normalising plain names gives the same names back.
pub proof fn lemma_plain_names_unchanged(names: Seq<Seq<char>>)
    requires
        all_plain(names),
    ensures
        normalized(plain_parts(names)) == Some(names),
    decreases names.len(),
{
    if names.len() > 0 {
        let front = names.drop_last();
        assert(all_plain(front)) by {
            assert forall|i: int| 0 <= i < front.len() implies is_plain_name(#[trigger] front[i]) by {
                assert(front[i] == names[i]);
            }
        }
        lemma_plain_names_unchanged(front);
        assert(plain_parts(names).drop_last() =~= plain_parts(front));
        assert(front.push(names.last()) =~= names);
    }
}

/// Normalising is idempotent: a path that came out of normalisation goes
/// through it unchanged.
pub proof fn lemma_normalize_idempotent(parts: Seq<PathPart>)
    requires
        normalized(parts) is Some,
    ensures
        normalized(plain_parts(normalized(parts)->0)) == normalized(parts),
{
    lemma_normalized_names(parts);
    lemma_plain_names_unchanged(normalized(parts)->0);
}

/// `index.html` is a plain name.
pub proof fn lemma_index_is_plain()
    ensures
        is_plain_name("index.html"@),
{
    reveal_strlit("index.html");
    let name = "index.html"@;
    assert forall|j: int| 0 <= j < name.len() implies name[j] != '/' by {
        assert(name[0] == 'i' && name[1] == 'n' && name[2] == 'd' && name[3] == 'e' && name[4]
            == 'x');
        assert(name[5] == '.' && name[6] == 'h' && name[7] == 't' && name[8] == 'm' && name[9]
            == 'l');
    }
}

/// `last_index_of` looks at a prefix only as far as the last `c` in it.
proof fn lemma_last_index_of_take(s: Seq<char>, c: char, n: int)
    requires
        0 <= n <= s.len(),
        forall|j: int| n <= j < s.len() ==> s[j] != c,
    ensures
        last_index_of(s, c) == last_index_of(s.take(n), c),
    decreases s.len() - n,
{
    if n < s.len() {
        assert(s.drop_last().take(n) =~= s.take(n));
        lemma_last_index_of_take(s.drop_last(), c, n);
    } else {
        assert(s.take(n) =~= s);
    }
}

/// Whether a name is plain: see `is_plain_name`.
pub fn is_plain(name: &str) -> (r: bool)
    ensures
        r == is_plain_name(name@),
{
    let chars = chars_of(name);
    let n = chars.len();
    if n == 0 {
        return false;
    }
    if n == 1 && chars[0] == '.' {
        assert(chars@ =~= seq!['.']);
        return false;
    }
    if n == 2 && chars[0] == '.' && chars[1] == '.' {
        assert(chars@ =~= seq!['.', '.']);
        return false;
    }
    let mut i: usize = 0;
    while i < n
        invariant
            i <= n,
            n == chars.len(),
            chars@ == name@,
            forall|j: int| 0 <= j < i ==> chars@[j] != '/',
        decreases n - i,
    {
        if chars[i] == '/' {
            return false;
        }
        i += 1;
    }
    true
}

impl RelativePath {
    #[verifier::type_invariant]
    spec fn names_are_plain(self) -> bool {
        all_plain(names_of(self.segments@))
    }

    /// The empty path: the directory that a path is joined onto.
    pub fn new() -> (r: RelativePath)
        ensures
            r@ == Seq::<Seq<char>>::empty(),
    {
        let segments: Vec<String> = Vec::new();
        RelativePath { segments }
    }

    /// The names of the path, from the outermost directory to the file.
    /// Each of them is plain.
    pub fn segments(&self) -> (r: &Vec<String>)
        ensures
            names_of(r@) == self@,
            all_plain(self@),
            forall|i: int| 0 <= i < r@.len() ==> is_plain_name(#[trigger] r@[i]@),
    {
        proof {
            use_type_invariant(self);
            assert forall|i: int| 0 <= i < self.segments@.len() implies is_plain_name(
                #[trigger] self.segments@[i]@,
            ) by {
                assert(names_of(self.segments@)[i] == self.segments@[i]@);
            }
        }
        &self.segments
    }

    /// The path of `index.html` in the directory that this path names.
    pub fn join_index(self) -> (r: RelativePath)
        ensures
            r@ == self@.push("index.html"@),
    {
        proof {
            use_type_invariant(&self);
            lemma_index_is_plain();
        }
        let mut segments = self.segments;
        let ghost before = names_of(segments@);
        segments.push(String::from_str("index.html"));
        assert(names_of(segments@) =~= before.push("index.html"@));
        RelativePath { segments }
    }

    /// The components that spell this path out: one name for each segment.
    pub fn to_components(&self) -> (components: Vec<PathComponent>)
        ensures
            parts_of(components@) == plain_parts(self@),
    {
        let mut components: Vec<PathComponent> = Vec::new();
        let mut i: usize = 0;
        while i < self.segments.len()
            invariant
                i <= self.segments.len(),
                components.len() == i,
                forall|j: int|
                    0 <= j < i ==> components@[j]@ == PathPart::Normal(self.segments@[j]@),
            decreases self.segments.len() - i,
        {
            components.push(PathComponent::Normal(self.segments[i].clone()));
            i += 1;
        }
        components
    }
}

/// Normalises a run of path components: `.` is dropped, `..` removes the
/// name before it, a plain name is kept. The path is rejected where a `..`
/// finds nothing to remove, at a root or a prefix, and at a name that is
/// not plain.
pub fn normalize_components(components: &Vec<PathComponent>) -> (r: Option<RelativePath>)
    ensures
        match r {
            Some(path) => normalized(parts_of(components@)) == Some(path@),
            None => normalized(parts_of(components@)) is None,
        },
        r is Some ==> all_plain(r->0@),
{
    let ghost parts = parts_of(components@);
    let mut segments: Vec<String> = Vec::new();
    let mut i: usize = 0;
    while i < components.len()
        invariant
            i <= components.len(),
            parts == parts_of(components@),
            normalized(parts.take(i as int)) == Some(names_of(segments@)),
            all_plain(names_of(segments@)),
        decreases components.len() - i,
    {
        let ghost before = names_of(segments@);
        proof {
            assert(parts.take(i + 1).drop_last() =~= parts.take(i as int));
        }
        match &components[i] {
            PathComponent::Normal(name) => {
                if !is_plain(name.as_str()) {
                    proof {
                        lemma_rejected_prefix(parts, i + 1);
                    }
                    return None;
                }
                segments.push(name.clone());
                assert(names_of(segments@) =~= before.push(name@));
            },
            PathComponent::CurDir => {},
            PathComponent::ParentDir => {
                if segments.len() == 0 {
                    proof {
                        lemma_rejected_prefix(parts, i + 1);
                    }
                    return None;
                }
                segments.pop();
            },
            PathComponent::RootDir => {
                proof {
                    lemma_rejected_prefix(parts, i + 1);
                }
                return None;
            },
            PathComponent::Prefix => {
                proof {
                    lemma_rejected_prefix(parts, i + 1);
                }
                return None;
            },
        }
        i += 1;
    }
    assert(parts.take(i as int) =~= parts);
    Some(RelativePath { segments })
}

/// Decomposes `path` with `std::path::Path::components`. The contract
/// claims only that the components handed back are the decomposition of
/// this text under the platform's rules, each copied into the matching
/// variant, a name with its characters; nothing is claimed of what the
/// decomposition holds.
#[verifier::external_body]
fn split_components(path: &str) -> (components: Vec<PathComponent>)
    ensures
        parts_of(components@) == path_components(path@),
{
    std::path::Path::new(path).components().map(
        |component| match component {
            std::path::Component::Prefix(_) => PathComponent::Prefix,
            std::path::Component::RootDir => PathComponent::RootDir,
            std::path::Component::CurDir => PathComponent::CurDir,
            std::path::Component::ParentDir => PathComponent::ParentDir,
            std::path::Component::Normal(name) => PathComponent::Normal(
                name.to_string_lossy().into_owned(),
            ),
        },
    ).collect()
}

/// Turns a path text into a safe relative path, or rejects it.
///
/// The text is taken as it stands, so percent-decoding has to come first.
/// It is decomposed into components and these are normalised: the result
/// is `None` exactly where a `..` would climb above the start, the text is
/// absolute, or a name in it is not plain.
pub fn normalize_relative_path(path: &str) -> (r: Option<RelativePath>)
    ensures
        match r {
            Some(relative) => normalized(path_components(path@)) == Some(relative@),
            None => normalized(path_components(path@)) is None,
        },
        r is Some ==> all_plain(r->0@),
{
    let components = split_components(path);
    normalize_components(&components)
}

/// The extension of a file name.
pub fn extension_of_name(name: &str) -> (r: String)
    ensures
        r@ == name_extension(name@),
{
    let chars = chars_of(name);
    let mut end: usize = chars.len();
    while end > 0 && chars[end - 1] != '.'
        invariant
            end <= chars.len(),
            forall|j: int| end <= j < chars.len() ==> chars@[j] != '.',
        decreases end,
    {
        end -= 1;
    }
    proof {
        lemma_last_index_of_take(chars@, '.', end as int);
    }
    if end > 1 {
        String::from_str(name.substring_char(end, chars.len()))
    } else {
        String::new()
    }
}

/// The extension of the file that a run of components names.
pub fn extension_of_components(components: &Vec<PathComponent>) -> (r: String)
    ensures
        r@ == components_extension(parts_of(components@)),
{
    if components.len() == 0 {
        return String::new();
    }
    match &components[components.len() - 1] {
        PathComponent::Normal(name) => extension_of_name(name.as_str()),
        _ => String::new(),
    }
}

/// The extension of the file that a path text names; empty where it names
/// none or the name has none.
pub fn extension_of_path(path: &str) -> (r: String)
    ensures
        r@ == components_extension(path_components(path@)),
{
    let components = split_components(path);
    extension_of_components(&components)
}

} // verus!
