//! Folder pickers inside a repository.
use vstd::prelude::*;

verus! {

/// What a repository folder picker was opened with.
#[derive(Debug)]
pub struct Options {
    pub repo_id: String,
}

} // verus!
