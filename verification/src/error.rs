//! Why a project record could not be made.

use vstd::prelude::*;

verus! {

/// The ways in which making a project record fails.
#[derive(Clone, Copy, Debug, PartialEq, Eq, Structural)]
pub enum ProjectError {
    /// The final component of the path is not the manifest's file name.
    InvalidManifest,
    /// The manifest could not be read.
    ReadError,
    /// The manifest is not a well-formed document.
    ParseError,
    /// The manifest declares no name and its directory has none to give.
    NameResolutionError,
    /// It could not be told whether the artifact directory exists.
    AccessError,
}

} // verus!
