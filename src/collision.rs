use vstd::prelude::*;
use crate::error::{ErrorKind, FsError, fails_with};
use crate::naming::{copy_name, copy_name_text, split_name, stem_and_suffix};
use crate::paths::{file_name_of, final_component, join_path, joined, parent_dir, parent_of};

verus! {

/// How many copy names (`(copy)`, `(copy 2)`, ... `(copy 1000)`) are tried
/// before giving up.
pub const MAX_COPY_NAMES: u64 = 1000;

/// The stem and extension suffix that copy names of `name` are formed from:
/// a directory keeps its whole name and has no extension.
pub open spec fn copy_parts(name: Seq<char>, is_dir: bool) -> (Seq<char>, Seq<char>) {
    if is_dir {
        (name, Seq::empty())
    } else {
        stem_and_suffix(name)
    }
}

/// The `i`-th name tried for a copy meant to land at `desired` (a directory
/// when `is_dir`): the path itself first, then its numbered copy names beside
/// it. `None` where the path has no final component or no parent to form
/// those names from.
pub open spec fn candidate(desired: Seq<char>, is_dir: bool, i: nat) -> Option<Seq<char>> {
    if i == 0 {
        Some(desired)
    } else if final_component(desired) is Some && parent_of(desired) is Some {
        let (stem, suffix) = copy_parts(final_component(desired)->Some_0, is_dir);
        Some(joined(parent_of(desired)->Some_0, copy_name(stem, suffix, i)))
    } else {
        None
    }
}

/// The probe `taken` answered `answer` when asked about `path`.
pub open spec fn probed<F: Fn(&str) -> bool>(taken: F, path: Seq<char>, answer: bool) -> bool {
    exists|p: &str| p@ == path && #[trigger] taken.ensures((p,), answer)
}

/// The probe reported the first `k` names of the sequence for `desired` as taken.
pub open spec fn first_taken<F: Fn(&str) -> bool>(taken: F, desired: Seq<char>, is_dir: bool, k: nat) -> bool {
    forall|j: nat| j < k ==> #[trigger] candidate(desired, is_dir, j) is Some
        && probed(taken, candidate(desired, is_dir, j)->Some_0, true)
}

/// Finds where a copy meant for `desired` (a directory when `is_dir`) can go
/// without overwriting anything: `desired` itself if `taken` says it is free,
/// else the first free name of `stem (copy)ext`, `stem (copy 2)ext`, ... beside
/// it. When all `MAX_COPY_NAMES` copy names are taken it gives up.
pub fn resolve_target<F: Fn(&str) -> bool>(desired: &str, is_dir: bool, taken: &F) -> (r: Result<String, FsError>)
    requires
        forall|p: &str| taken.requires((p,)),
    ensures
        r is Ok ==> exists|k: nat| #![trigger candidate(desired@, is_dir, k)]
            k <= MAX_COPY_NAMES && first_taken(*taken, desired@, is_dir, k)
                && candidate(desired@, is_dir, k) == Some(r->Ok_0@)
                && probed(*taken, r->Ok_0@, false),
        r is Err ==> fails_with(r, ErrorKind::TooManyCollisions, desired@)
            || fails_with(r, ErrorKind::InvalidPath, desired@),
        fails_with(r, ErrorKind::TooManyCollisions, desired@)
            ==> first_taken(*taken, desired@, is_dir, MAX_COPY_NAMES as nat + 1),
        fails_with(r, ErrorKind::InvalidPath, desired@) ==> probed(*taken, desired@, true)
            && candidate(desired@, is_dir, 1) is None,
{
    let mut cand = String::from_str(desired);
    let mut parent = String::new();
    let mut stem = String::new();
    let mut suffix = String::new();
    let mut i: u64 = 0;
    loop
        invariant
            i <= MAX_COPY_NAMES,
            forall|p: &str| taken.requires((p,)),
            first_taken(*taken, desired@, is_dir, i as nat),
            candidate(desired@, is_dir, i as nat) == Some(cand@),
            i > 0 ==> final_component(desired@) is Some && parent_of(desired@) is Some
                && parent@ == parent_of(desired@)->Some_0
                && (stem@, suffix@) == copy_parts(final_component(desired@)->Some_0, is_dir),
        decreases MAX_COPY_NAMES - i,
    {
        let answer = taken(cand.as_str());
        if !answer {
            return Ok(cand);
        }
        assert(probed(*taken, cand@, true));
        assert(first_taken(*taken, desired@, is_dir, i as nat + 1));
        if i >= MAX_COPY_NAMES {
            return Err(FsError::new(ErrorKind::TooManyCollisions, desired));
        }
        if i == 0 {
            let name = file_name_of(desired);
            let dir = parent_dir(desired);
            match (name, dir) {
                (Some(name), Some(dir)) => {
                    if is_dir {
                        stem = name;
                        suffix = String::new();
                    } else {
                        let (s, x) = split_name(name.as_str());
                        stem = s;
                        suffix = x;
                    }
                    parent = dir;
                }
                _ => {
                    return Err(FsError::new(ErrorKind::InvalidPath, desired));
                }
            }
        }
        i = i + 1;
        let name = copy_name_text(stem.as_str(), suffix.as_str(), i);
        cand = join_path(parent.as_str(), name.as_str());
    }
}

} // verus!
