//! The options of a folder picker over the remote storage.
use vstd::prelude::*;

verus! {

/// Whether the picker lists only hosted devices (and no shared roots).
#[derive(Debug)]
pub struct Options {
    pub only_hosted_devices: bool,
}

} // verus!
