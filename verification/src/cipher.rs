//! Why a name or a size of a repository could not be decrypted.
use vstd::prelude::*;

use crate::strings::copy_str;

verus! {

/// Why an encrypted file name could not be decrypted: the cipher refused it,
/// or the name is not valid encrypted text (then its escaped form is kept).
#[derive(Debug)]
pub enum DecryptFilenameError {
    DecryptFilenameError { message: String },
    InvalidNameError { escaped_name: String, message: String },
}

impl DecryptFilenameError {
    pub open spec fn spec_message(&self) -> Seq<char> {
        match self {
            DecryptFilenameError::DecryptFilenameError { message } => message@,
            DecryptFilenameError::InvalidNameError { message, .. } => message@,
        }
    }

    /// The text shown to the user: the error's message.
    pub fn user_error(&self) -> (r: String)
        ensures
            r@ == self.spec_message(),
    {
        match self {
            DecryptFilenameError::DecryptFilenameError { message } => copy_str(message.as_str()),
            DecryptFilenameError::InvalidNameError { message, .. } => copy_str(message.as_str()),
        }
    }
}

impl Clone for DecryptFilenameError {
    fn clone(&self) -> (r: Self)
        ensures
            r == *self,
    {
        match self {
            DecryptFilenameError::DecryptFilenameError { message } =>
                DecryptFilenameError::DecryptFilenameError { message: message.clone() },
            DecryptFilenameError::InvalidNameError { escaped_name, message } =>
                DecryptFilenameError::InvalidNameError {
                    escaped_name: escaped_name.clone(),
                    message: message.clone(),
                },
        }
    }
}

#[derive(Debug)]
pub struct DecryptSizeError {
    pub message: String,
}

impl Clone for DecryptSizeError {
    fn clone(&self) -> (r: Self)
        ensures
            r == *self,
    {
        DecryptSizeError { message: self.message.clone() }
    }
}

} // verus!
