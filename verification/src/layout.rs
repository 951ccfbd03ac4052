//! Where a workspace keeps its files: the session pointer at the root, and
//! in each session directory the metadata, the snippet list and the notes.

use vstd::prelude::*;
use crate::path::{FilePath, PathView, join_paths, parent_of, path_views, text_path};

verus! {

/// Name of the file at the workspace root that points to the active session.
pub const POINTER_FILE: &'static str = "active.json";

/// Name of a session's metadata file.
pub const METADATA_FILE: &'static str = "session.json";

/// Name of a session's snippet list.
pub const SNIPPETS_FILE: &'static str = "code_snippets.json";

/// Name of a session's notes directory.
pub const NOTES_DIR: &'static str = "context";

/// Extension of the files in the notes directory that are cached.
pub const NOTE_EXTENSION: &'static str = "md";

/// The entry called `name` in the directory `dir`.
pub open spec fn entry_of(dir: PathView, name: Seq<char>) -> PathView {
    join_paths(dir, text_path(name))
}

/// The session pointer of the workspace rooted at `root`.
pub open spec fn pointer_file(root: PathView) -> PathView {
    entry_of(root, POINTER_FILE@)
}

/// The metadata file of the session in `session_dir`.
pub open spec fn metadata_file(session_dir: PathView) -> PathView {
    entry_of(session_dir, METADATA_FILE@)
}

/// The snippet list of the session in `session_dir`.
pub open spec fn snippets_file(session_dir: PathView) -> PathView {
    entry_of(session_dir, SNIPPETS_FILE@)
}

/// The notes directory of the session in `session_dir`.
pub open spec fn notes_dir(session_dir: PathView) -> PathView {
    entry_of(session_dir, NOTES_DIR@)
}

/// The session pointer of the workspace rooted at `root`.
pub fn pointer_path(root: &FilePath) -> (r: FilePath)
    ensures
        r@ == pointer_file(root@),
{
    root.child(POINTER_FILE)
}

/// The metadata file of the session in `session_dir`.
pub fn metadata_path(session_dir: &FilePath) -> (r: FilePath)
    ensures
        r@ == metadata_file(session_dir@),
{
    session_dir.child(METADATA_FILE)
}

/// The snippet list of the session in `session_dir`.
pub fn snippets_path(session_dir: &FilePath) -> (r: FilePath)
    ensures
        r@ == snippets_file(session_dir@),
{
    session_dir.child(SNIPPETS_FILE)
}

/// The notes directory of the session in `session_dir`.
pub fn notes_path(session_dir: &FilePath) -> (r: FilePath)
    ensures
        r@ == notes_dir(session_dir@),
{
    session_dir.child(NOTES_DIR)
}

/// Name of the directory that holds a workspace's sessions.
pub const WORKSPACE_DIR: &'static str = ".snek";

/// The workspace directory inside the directory `dir`.
pub open spec fn workspace_in(dir: PathView) -> PathView {
    entry_of(dir, WORKSPACE_DIR@)
}

/// The workspace directories of `dir` and of the directories above it, the
/// nearest first.
pub open spec fn workspaces_above(dir: PathView) -> Seq<PathView>
    decreases dir.parts.len(),
{
    match parent_of(dir) {
        Some(up) => seq![workspace_in(dir)] + workspaces_above(up),
        None => seq![workspace_in(dir)],
    }
}

/// Where a workspace may be, in the order in which to look: in the
/// directory that was asked for, and there only; without one, in the
/// current directory and in each directory above it.
pub open spec fn candidate_roots(asked: Option<PathView>, current: PathView) -> Seq<PathView> {
    match asked {
        Some(dir) => seq![workspace_in(dir)],
        None => workspaces_above(current),
    }
}

/// Where a workspace may be, in the order in which to look.
pub fn workspace_candidates(asked: Option<&FilePath>, current: &FilePath) -> (r: Vec<FilePath>)
    ensures
        path_views(r@) == candidate_roots(
            match asked {
                Some(dir) => Some(dir@),
                None => None,
            },
            current@,
        ),
        r.len() >= 1,
{
    let mut out: Vec<FilePath> = Vec::new();
    match asked {
        Some(dir) => {
            out.push(dir.child(WORKSPACE_DIR));
            assert(path_views(out@) =~= seq![workspace_in(dir@)]);
        },
        None => {
            let mut dir = current.clone();
            assert(path_views(out@) + workspaces_above(dir@) =~= workspaces_above(current@));
            loop
                invariant_except_break
                    path_views(out@) + workspaces_above(dir@) == workspaces_above(current@),
                ensures
                    path_views(out@) == workspaces_above(current@),
                    out.len() >= 1,
                decreases dir@.parts.len(),
            {
                let ghost before = path_views(out@);
                out.push(dir.child(WORKSPACE_DIR));
                assert(path_views(out@) =~= before.push(workspace_in(dir@)));
                match dir.parent() {
                    Some(up) => {
                        assert(path_views(out@) + workspaces_above(up@) =~= before
                            + workspaces_above(dir@));
                        dir = up;
                    },
                    None => {
                        assert(path_views(out@) =~= before + workspaces_above(dir@));
                        break ;
                    },
                }
            }
        },
    }
    out
}

/// Where the workspace is.
#[derive(Debug)]
pub enum RootChoice {
    /// The workspace is there already.
    Existing(FilePath),
    /// There is none: this one is to be made, with a first session in it.
    Create(FilePath),
}

/// A place where the workspace may be, and whether a directory is there.
#[derive(Debug)]
pub struct Candidate {
    pub path: FilePath,
    pub is_dir: bool,
}

/// Whether `i` is the position of the first candidate that is a directory.
pub open spec fn is_first_found(candidates: Seq<Candidate>, i: int) -> bool {
    &&& 0 <= i < candidates.len()
    &&& candidates[i].is_dir
    &&& forall|j: int| 0 <= j < i ==> !candidates[j].is_dir
}

/// Picks the workspace among `candidates`: the first that is a directory;
/// when none is, the first candidate is to be made. Without candidates
/// there is nothing to pick.
pub fn find_workspace_root(candidates: &Vec<Candidate>) -> (r: Option<RootChoice>)
    ensures
        match r {
            Some(RootChoice::Existing(dir)) => exists|i: int|
                is_first_found(candidates@, i) && dir@ == candidates@[i].path@,
            Some(RootChoice::Create(dir)) => candidates.len() > 0 && dir@ == candidates@[0].path@
                && forall|j: int| 0 <= j < candidates.len() ==> !candidates@[j].is_dir,
            None => candidates.len() == 0,
        },
{
    let mut i: usize = 0;
    while i < candidates.len()
        invariant
            i <= candidates.len(),
            forall|j: int| 0 <= j < i ==> !candidates@[j].is_dir,
        decreases candidates.len() - i,
    {
        if candidates[i].is_dir {
            assert(is_first_found(candidates@, i as int));
            return Some(RootChoice::Existing(candidates[i].path.clone()));
        }
        i = i + 1;
    }
    if candidates.len() == 0 {
        None
    } else {
        Some(RootChoice::Create(candidates[0].path.clone()))
    }
}

} // verus!
