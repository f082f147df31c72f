//! A repository configuration read from an rclone config file.
use vstd::prelude::*;

verus! {

/// The parts of an rclone "crypt" remote that fill a new repository's form.
#[derive(Debug)]
pub struct Config {
    pub name: String,
    pub path: String,
    pub password: String,
    pub salt: Option<String>,
}

/// Why an rclone config could not be read.
#[derive(Debug)]
pub struct ParseConfigError {
    pub message: String,
}

impl Clone for ParseConfigError {
    fn clone(&self) -> (r: Self)
        ensures
            r == *self,
    {
        ParseConfigError { message: self.message.clone() }
    }
}

} // verus!
