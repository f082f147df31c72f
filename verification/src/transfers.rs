//! Why a transfer of file content failed.
use vstd::prelude::*;

use crate::remote::RemoteError;
use crate::strings::copy_str;

verus! {

/// Why a download or an upload of file content failed.
#[derive(Debug)]
pub enum TransferError {
    RemoteError(RemoteError),
    Aborted,
    Other { message: String },
}

impl TransferError {
    pub open spec fn spec_user_error(&self) -> Seq<char> {
        match self {
            TransferError::RemoteError(e) => e.spec_message(),
            TransferError::Aborted => "Aborted"@,
            TransferError::Other { message } => message@,
        }
    }

    /// The text shown to the user for this error.
    pub fn user_error(&self) -> (r: String)
        ensures
            r@ == self.spec_user_error(),
    {
        match self {
            TransferError::RemoteError(e) => e.user_error(),
            TransferError::Aborted => copy_str("Aborted"),
            TransferError::Other { message } => copy_str(message.as_str()),
        }
    }
}

impl Clone for TransferError {
    fn clone(&self) -> (r: Self)
        ensures
            r == *self,
    {
        match self {
            TransferError::RemoteError(e) => TransferError::RemoteError(e.clone()),
            TransferError::Aborted => TransferError::Aborted,
            TransferError::Other { message } => TransferError::Other { message: message.clone() },
        }
    }
}

} // verus!
