use vstd::prelude::*;
use crate::collision::{candidate, first_taken, probed, resolve_target, MAX_COPY_NAMES};
use crate::error::{ErrorKind, FsError, PathStatus, fails_with};
use crate::paths::{file_name_of, final_component, join_path, joined};
use crate::tree::FileNode;

verus! {

/// Where an operation on `source` aimed at `destination` lands: inside
/// `destination` under the source's own name when `destination` is a
/// directory, else `destination` itself. `None` when the source's name is
/// needed and it has none.
pub open spec fn landing(source: Seq<char>, destination: Seq<char>, dest_status: PathStatus) -> Option<Seq<char>> {
    if dest_status is Directory {
        match final_component(source) {
            Some(name) => Some(joined(destination, name)),
            None => None,
        }
    } else {
        Some(destination)
    }
}

/// Computes where an operation on `source` aimed at `destination` lands.
pub fn landing_path(source: &str, destination: &str, dest_status: PathStatus) -> (r: Result<String, FsError>)
    ensures
        landing(source@, destination@, dest_status) is Some ==> r is Ok
            && r->Ok_0@ == landing(source@, destination@, dest_status)->Some_0,
        landing(source@, destination@, dest_status) is None ==> fails_with(r, ErrorKind::InvalidPath, source@),
{
    match dest_status {
        PathStatus::Directory => match file_name_of(source) {
            Some(name) => Ok(join_path(destination, name.as_str())),
            None => Err(FsError::new(ErrorKind::InvalidPath, source)),
        },
        _ => Ok(String::from_str(destination)),
    }
}

/// Moves never overwrite and never rename on collision: the source must be
/// present and the landing path free (as `taken` reports it). On success the
/// result is the path to rename the source to.
pub fn plan_move<F: Fn(&str) -> bool>(
    source: &str,
    src_status: PathStatus,
    destination: &str,
    dest_status: PathStatus,
    taken: &F,
) -> (r: Result<String, FsError>)
    requires
        forall|p: &str| taken.requires((p,)),
    ensures
        !src_status.present() ==> fails_with(r, ErrorKind::SourceMissing, source@),
        src_status.present() && landing(source@, destination@, dest_status) is None
            ==> fails_with(r, ErrorKind::InvalidPath, source@),
        r is Ok ==> src_status.present()
            && landing(source@, destination@, dest_status) == Some(r->Ok_0@)
            && probed(*taken, r->Ok_0@, false),
        r is Err && src_status.present() && landing(source@, destination@, dest_status) is Some
            ==> fails_with(r, ErrorKind::DestinationExists, landing(source@, destination@, dest_status)->Some_0)
            && probed(*taken, landing(source@, destination@, dest_status)->Some_0, true),
{
    if !src_status.is_present() {
        return Err(FsError::new(ErrorKind::SourceMissing, source));
    }
    let target = landing_path(source, destination, dest_status)?;
    if taken(target.as_str()) {
        Err(FsError::new(ErrorKind::DestinationExists, target.as_str()))
    } else {
        Ok(target)
    }
}

/// What a copy does once its target is settled.
#[derive(Debug, PartialEq, Eq)]
pub struct CopyPlan {
    /// The path the copy is written to.
    pub target: String,
    /// Whether the source is a directory, copied with everything below it.
    pub whole_tree: bool,
}

/// Copies never overwrite: the source must be a present file or directory; the
/// target is where it lands, renamed by the copy naming sequence (which keeps a
/// directory's whole name) when `taken` reports that path in use.
pub fn plan_copy<F: Fn(&str) -> bool>(
    source: &str,
    src_status: PathStatus,
    destination: &str,
    dest_status: PathStatus,
    taken: &F,
) -> (r: Result<CopyPlan, FsError>)
    requires
        forall|p: &str| taken.requires((p,)),
    ensures
        !src_status.present() ==> fails_with(r, ErrorKind::SourceMissing, source@),
        src_status is Other ==> fails_with(r, ErrorKind::WrongType, source@),
        (src_status is File || src_status is Directory) && landing(source@, destination@, dest_status) is None
            ==> fails_with(r, ErrorKind::InvalidPath, source@),
        r is Ok ==> (src_status is File || src_status is Directory)
            && r->Ok_0.whole_tree == (src_status is Directory)
            && landing(source@, destination@, dest_status) is Some
            && exists|k: nat| #![trigger candidate(landing(source@, destination@, dest_status)->Some_0, src_status is Directory, k)]
                k <= MAX_COPY_NAMES
                && first_taken(*taken, landing(source@, destination@, dest_status)->Some_0, src_status is Directory, k)
                && candidate(landing(source@, destination@, dest_status)->Some_0, src_status is Directory, k)
                    == Some(r->Ok_0.target@)
                && probed(*taken, r->Ok_0.target@, false),
        r is Err && (src_status is File || src_status is Directory) && landing(source@, destination@, dest_status) is Some
            ==> fails_with(r, ErrorKind::TooManyCollisions, landing(source@, destination@, dest_status)->Some_0)
                && first_taken(*taken, landing(source@, destination@, dest_status)->Some_0, src_status is Directory,
                    MAX_COPY_NAMES as nat + 1)
            || fails_with(r, ErrorKind::InvalidPath, landing(source@, destination@, dest_status)->Some_0)
                && probed(*taken, landing(source@, destination@, dest_status)->Some_0, true)
                && candidate(landing(source@, destination@, dest_status)->Some_0, src_status is Directory, 1) is None,
{
    let whole_tree = match src_status {
        PathStatus::Missing => {
            return Err(FsError::new(ErrorKind::SourceMissing, source));
        }
        PathStatus::Other => {
            return Err(FsError::new(ErrorKind::WrongType, source));
        }
        PathStatus::Directory => true,
        PathStatus::File => false,
    };
    let landed = landing_path(source, destination, dest_status)?;
    let target = resolve_target(landed.as_str(), whole_tree, taken)?;
    Ok(CopyPlan { target, whole_tree })
}

/// One filesystem action of a tree copy.
#[derive(Debug, PartialEq, Eq)]
pub enum CopyStep {
    /// Create this directory (and any missing parents).
    MakeDir(String),
    /// Copy the file at the first path to the second.
    CopyFile(String, String),
}

/// A copy step with its paths as texts.
pub enum StepModel {
    MakeDir(Seq<char>),
    CopyFile(Seq<char>, Seq<char>),
}

impl View for CopyStep {
    type V = StepModel;

    open spec fn view(&self) -> StepModel {
        match self {
            CopyStep::MakeDir(d) => StepModel::MakeDir(d@),
            CopyStep::CopyFile(a, b) => StepModel::CopyFile(a@, b@),
        }
    }
}

/// The steps of a list of copy steps.
pub open spec fn steps_of(s: Seq<CopyStep>) -> Seq<StepModel> {
    s.map_values(|c: CopyStep| c@)
}

/// The steps that copy the listed `nodes` into the directory `dst`, depth
/// first: each file is copied under its name; each directory is created under
/// its name and its expanded children are copied into it.
pub open spec fn level_steps(dst: Seq<char>, nodes: Seq<FileNode>) -> Seq<StepModel>
    decreases nodes,
{
    if nodes.len() == 0 {
        Seq::empty()
    } else {
        let n = nodes.last();
        let to = joined(dst, n.name@);
        level_steps(dst, nodes.drop_last()) + if n.is_directory {
            seq![StepModel::MakeDir(to)] + match n.children {
                Some(c) => level_steps(to, c@),
                None => Seq::empty(),
            }
        } else {
            seq![StepModel::CopyFile(n.path@, to)]
        }
    }
}

fn push_level_steps(dst: &str, nodes: &Vec<FileNode>, out: &mut Vec<CopyStep>)
    ensures
        steps_of(final(out)@) == steps_of(old(out)@) + level_steps(dst@, nodes@),
    decreases nodes@,
{
    let ghost start = steps_of(out@);
    let mut i: usize = 0;
    assert(nodes@.subrange(0, 0) =~= Seq::<FileNode>::empty());
    assert(steps_of(out@) =~= start + level_steps(dst@, nodes@.subrange(0, 0)));
    while i < nodes.len()
        invariant
            i <= nodes@.len(),
            steps_of(out@) == start + level_steps(dst@, nodes@.subrange(0, i as int)),
        decreases nodes.len() - i,
    {
        let n = &nodes[i];
        let ghost before = steps_of(out@);
        let to = join_path(dst, n.name.as_str());
        let ghost sub = nodes@.subrange(0, i + 1);
        assert(sub.drop_last() =~= nodes@.subrange(0, i as int));
        assert(sub.last() == *n);
        if n.is_directory {
            out.push(CopyStep::MakeDir(to.clone()));
            assert(steps_of(out@) =~= before + seq![StepModel::MakeDir(to@)]);
            match &n.children {
                Some(c) => {
                    push_level_steps(to.as_str(), c, out);
                    assert(steps_of(out@) =~= start + level_steps(dst@, sub));
                }
                None => {
                    assert(steps_of(out@) =~= start + level_steps(dst@, sub));
                }
            }
        } else {
            let ghost to_view = to@;
            out.push(CopyStep::CopyFile(n.path.clone(), to));
            assert(steps_of(out@) =~= before + seq![StepModel::CopyFile(n.path@, to_view)]);
            assert(steps_of(out@) =~= start + level_steps(dst@, sub));
        }
        i = i + 1;
    }
    assert(nodes@.subrange(0, i as int) =~= nodes@);
}

/// The steps that copy a directory, whose expanded listing is `tree`, to
/// `target`: create `target`, then copy every listed entry into it, depth first.
pub fn tree_copy_steps(target: &str, tree: &Vec<FileNode>) -> (r: Vec<CopyStep>)
    ensures
        steps_of(r@) == seq![StepModel::MakeDir(target@)] + level_steps(target@, tree@),
{
    let mut out: Vec<CopyStep> = Vec::new();
    out.push(CopyStep::MakeDir(String::from_str(target)));
    assert(steps_of(out@) =~= seq![StepModel::MakeDir(target@)]);
    push_level_steps(target, tree, &mut out);
    out
}

/// `part` occurs as a contiguous block of `whole`.
pub open spec fn occurs_in<A>(part: Seq<A>, whole: Seq<A>) -> bool {
    exists|a: int| 0 <= a && a + part.len() <= whole.len() && #[trigger] whole.subrange(a, a + part.len()) == part
}

/// A tree copy reproduces the listed structure: each listed file is copied
/// under its own name into the copy of its directory, and each listed
/// directory is created there, with the copy of its expanded contents
/// following as one block (so, level by level, every file below it too).
pub proof fn lemma_copy_covers_listing(dst: Seq<char>, nodes: Seq<FileNode>, i: int)
    requires
        0 <= i < nodes.len(),
    ensures
        !nodes[i].is_directory ==> level_steps(dst, nodes).contains(
            StepModel::CopyFile(nodes[i].path@, joined(dst, nodes[i].name@)),
        ),
        nodes[i].is_directory ==> level_steps(dst, nodes).contains(
            StepModel::MakeDir(joined(dst, nodes[i].name@)),
        ),
        nodes[i].is_directory && nodes[i].children is Some ==> occurs_in(
            level_steps(joined(dst, nodes[i].name@), nodes[i].children->Some_0@),
            level_steps(dst, nodes),
        ),
    decreases nodes.len(),
{
    let last = nodes.last();
    let to = joined(dst, last.name@);
    let front = level_steps(dst, nodes.drop_last());
    let tail = if last.is_directory {
        seq![StepModel::MakeDir(to)] + match last.children {
            Some(c) => level_steps(to, c@),
            None => Seq::empty(),
        }
    } else {
        seq![StepModel::CopyFile(last.path@, to)]
    };
    let all = level_steps(dst, nodes);
    assert(all == front + tail);
    if i == nodes.len() - 1 {
        assert(all[front.len() as int] == tail[0]);
        if last.is_directory && last.children is Some {
            let part = level_steps(to, last.children->Some_0@);
            assert(all.subrange(front.len() + 1 as int, front.len() + 1 + part.len() as int) =~= part);
        }
    } else {
        lemma_copy_covers_listing(dst, nodes.drop_last(), i);
        assert(nodes.drop_last()[i] == nodes[i]);
        let n = nodes[i];
        let t = joined(dst, n.name@);
        if !n.is_directory {
            let k = choose|k: int| 0 <= k < front.len() && front[k] == StepModel::CopyFile(n.path@, t);
            assert(all[k] == front[k]);
        } else {
            let k = choose|k: int| 0 <= k < front.len() && front[k] == StepModel::MakeDir(t);
            assert(all[k] == front[k]);
            if n.children is Some {
                let part = level_steps(t, n.children->Some_0@);
                let a = choose|a: int| 0 <= a && a + part.len() <= front.len()
                    && #[trigger] front.subrange(a, a + part.len()) == part;
                assert(all.subrange(a, a + part.len()) =~= front.subrange(a, a + part.len()));
            }
        }
    }
}

} // verus!
