//! Why the form for a new repository could not be prepared.
use vstd::prelude::*;

use crate::remote::RemoteError;
use crate::repos::LoadReposError;

verus! {

#[derive(Debug)]
pub enum CreateLoadError {
    LoadReposError(LoadReposError),
    LoadPrimaryMountError(RemoteError),
}

impl CreateLoadError {
    pub open spec fn spec_user_error(&self) -> Seq<char> {
        match self {
            CreateLoadError::LoadReposError(e) => e.spec_user_error(),
            CreateLoadError::LoadPrimaryMountError(e) => e.spec_message(),
        }
    }

    /// The text shown to the user for this error: the cause's.
    pub fn user_error(&self) -> (r: String)
        ensures
            r@ == self.spec_user_error(),
    {
        match self {
            CreateLoadError::LoadReposError(e) => e.user_error(),
            CreateLoadError::LoadPrimaryMountError(e) => e.user_error(),
        }
    }
}

impl Clone for CreateLoadError {
    fn clone(&self) -> (r: Self)
        ensures
            r == *self,
    {
        match self {
            CreateLoadError::LoadReposError(e) => CreateLoadError::LoadReposError(e.clone()),
            CreateLoadError::LoadPrimaryMountError(e) => CreateLoadError::LoadPrimaryMountError(
                e.clone(),
            ),
        }
    }
}

} // verus!
