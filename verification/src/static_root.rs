//! Choosing the static root at startup.
//!
//! The host names the directories that may hold the assets and says of
//! each whether it is a directory on disk. The assets of the application's
//! resources come before those beside the executable: the first of the two
//! that is a directory becomes the static root.

use vstd::prelude::*;

verus! {

/// The name of the directory, below a directory that the host names, in
/// which the assets lie.
pub const STATIC_DIR: &'static str = "build";

/// A directory that may hold the assets: the `STATIC_DIR` child of a
/// directory that the host names.
#[derive(Debug)]
pub struct RootCandidate {
    /// The path of the directory.
    pub path: String,
    /// Whether the path is a directory on disk.
    pub is_dir: bool,
}

/// Why no static root was chosen.
#[derive(Debug, PartialEq, Eq, Clone, Copy, Structural)]
pub enum StaticRootError {
    /// None of the candidates is a directory.
    Missing,
}

impl StaticRootError {
    /// The error in words.
    pub fn message(&self) -> (r: &'static str)
        ensures
            r@ == "Missing static root"@,
    {
        "Missing static root"
    }
}

/// The position of the first candidate that is a directory, or the number
/// of candidates where none is.
pub open spec fn first_directory(candidates: Seq<RootCandidate>) -> int
    decreases candidates.len(),
{
    if candidates.len() == 0 {
        0
    } else if candidates[0].is_dir {
        0
    } else {
        1 + first_directory(candidates.skip(1))
    }
}

/// `first_directory` is the least position of a directory.
pub proof fn lemma_first_directory(candidates: Seq<RootCandidate>)
    ensures
        0 <= first_directory(candidates) <= candidates.len(),
        first_directory(candidates) < candidates.len() ==> candidates[first_directory(
            candidates,
        )].is_dir,
        forall|j: int| 0 <= j < first_directory(candidates) ==> !candidates[j].is_dir,
    decreases candidates.len(),
{
    if candidates.len() > 0 && !candidates[0].is_dir {
        let rest = candidates.skip(1);
        lemma_first_directory(rest);
        assert forall|j: int| 0 <= j < first_directory(candidates) implies !candidates[j].is_dir by {
            if j > 0 {
                assert(candidates[j] == rest[j - 1]);
            }
        }
    }
}

/// Where a static root comes from.
#[derive(Debug, PartialEq, Eq, Clone, Copy, Structural)]
pub enum RootSource {
    /// The application's resource directory.
    Resource,
    /// The directory of the running executable.
    Executable,
}

/// Which of the two candidates becomes the static root: the one of the
/// resource directory where it is a directory on disk, else the one of the
/// executable's directory where that is one, else none. A candidate that
/// the host could not name counts as none.
pub open spec fn chosen_source(
    resource: Option<RootCandidate>,
    executable: Option<RootCandidate>,
) -> Option<RootSource> {
    if resource is Some && resource->0.is_dir {
        Some(RootSource::Resource)
    } else if executable is Some && executable->0.is_dir {
        Some(RootSource::Executable)
    } else {
        None
    }
}

/// The candidates that the host could name, the resource directory's
/// first.
pub open spec fn in_priority(
    resource: Option<RootCandidate>,
    executable: Option<RootCandidate>,
) -> Seq<RootCandidate> {
    let first = match resource {
        Some(candidate) => seq![candidate],
        None => Seq::empty(),
    };
    let second = match executable {
        Some(candidate) => seq![candidate],
        None => Seq::empty(),
    };
    first + second
}

/// Choosing between the two candidates is choosing the first directory in
/// their order of priority.
pub proof fn lemma_chosen_is_first_directory(
    resource: Option<RootCandidate>,
    executable: Option<RootCandidate>,
)
    ensures
        chosen_source(resource, executable) is Some <==> first_directory(
            in_priority(resource, executable),
        ) < in_priority(resource, executable).len(),
        chosen_source(resource, executable) == Some(RootSource::Resource) ==> in_priority(
            resource,
            executable,
        )[first_directory(in_priority(resource, executable))] == resource->0,
        chosen_source(resource, executable) == Some(RootSource::Executable) ==> in_priority(
            resource,
            executable,
        )[first_directory(in_priority(resource, executable))] == executable->0,
{
    let all = in_priority(resource, executable);
    reveal_with_fuel(first_directory, 3);
    if all.len() > 0 {
        assert(all.skip(1).len() == all.len() - 1);
        if all.len() == 2 {
            assert(all.skip(1)[0] == all[1]);
            assert(all.skip(1).skip(1).len() == 0);
        }
    }
}

/// Which of the two candidates becomes the static root: see
/// `chosen_source`.
pub fn static_root_source(
    resource: &Option<RootCandidate>,
    executable: &Option<RootCandidate>,
) -> (r: Option<RootSource>)
    ensures
        r == chosen_source(*resource, *executable),
{
    match resource {
        Some(candidate) => {
            if candidate.is_dir {
                return Some(RootSource::Resource);
            }
        },
        None => {},
    }
    match executable {
        Some(candidate) => {
            if candidate.is_dir {
                return Some(RootSource::Executable);
            }
        },
        None => {},
    }
    None
}

/// Chooses the static root between the assets of the application's
/// resources and those beside the executable. The resource candidate wins
/// where it is a directory; else the executable's where that is one; else
/// there is no static root, and the resolver has no source on disk.
pub fn choose_static_root(
    resource: Option<RootCandidate>,
    executable: Option<RootCandidate>,
) -> (r: Result<String, StaticRootError>)
    ensures
        match r {
            Ok(root) => match chosen_source(resource, executable) {
                Some(RootSource::Resource) => root@ == resource->0.path@,
                Some(RootSource::Executable) => root@ == executable->0.path@,
                None => false,
            },
            Err(error) => chosen_source(resource, executable) is None && error
                == StaticRootError::Missing,
        },
{
    match resource {
        Some(candidate) => {
            if candidate.is_dir {
                return Ok(candidate.path);
            }
        },
        None => {},
    }
    match executable {
        Some(candidate) => {
            if candidate.is_dir {
                return Ok(candidate.path);
            }
        },
        None => {},
    }
    Err(StaticRootError::Missing)
}

/// The position of the candidate that becomes the static root: the first,
/// in the order given, that is a directory. `None` where none is. A host
/// that holds the directories in a form of its own picks the root by this
/// position.
pub fn static_root_position(candidates: &Vec<RootCandidate>) -> (r: Option<usize>)
    ensures
        match r {
            Some(position) => position == first_directory(candidates@) && position
                < candidates.len(),
            None => first_directory(candidates@) == candidates.len(),
        },
{
    let mut i: usize = 0;
    proof {
        lemma_first_directory(candidates@);
    }
    while i < candidates.len()
        invariant
            i <= candidates.len(),
            forall|j: int| 0 <= j < i ==> !candidates@[j].is_dir,
            0 <= first_directory(candidates@) <= candidates.len(),
            first_directory(candidates@) < candidates.len() ==> candidates@[first_directory(
                candidates@,
            )].is_dir,
            forall|j: int| 0 <= j < first_directory(candidates@) ==> !candidates@[j].is_dir,
        decreases candidates.len() - i,
    {
        if candidates[i].is_dir {
            return Some(i);
        }
        i += 1;
    }
    None
}

/// Chooses the static root: the first candidate, in the order given, that
/// is a directory. Where none is, the resolver has no source on disk.
pub fn resolve_static_root(candidates: &Vec<RootCandidate>) -> (r: Result<String, StaticRootError>)
    ensures
        match r {
            Ok(root) => first_directory(candidates@) < candidates.len() && root@
                == candidates@[first_directory(candidates@)].path@,
            Err(error) => first_directory(candidates@) == candidates.len() && error
                == StaticRootError::Missing,
        },
{
    match static_root_position(candidates) {
        Some(position) => Ok(candidates[position].path.clone()),
        None => Err(StaticRootError::Missing),
    }
}

} // verus!
