//! The dialog that moves or copies files of a repository into a folder.
use vstd::prelude::*;

verus! {

#[derive(Clone, Copy, Debug, PartialEq, Eq, Structural)]
pub enum RepoFilesMoveMode {
    Copy,
    Move,
}

/// What a confirmed move or copy is to do.
#[derive(Debug)]
pub struct RepoFilesMoveInfo {
    pub repo_id: String,
    pub src_paths: Vec<String>,
    pub mode: RepoFilesMoveMode,
    pub dir_picker_id: u32,
    pub dest_path: String,
}

/// An open move dialog: the files to move, the folder chosen so far and the
/// folder picker that chooses it.
#[derive(Debug)]
pub struct RepoFilesMoveState {
    pub repo_id: String,
    pub src_paths: Vec<String>,
    pub mode: RepoFilesMoveMode,
    pub dest_path: String,
    pub dir_picker_id: u32,
}

} // verus!
