//! Failures of a task that the library decides.

use vstd::prelude::*;

verus! {

/// Why a task cannot go on.
#[derive(Clone, Copy, Debug, PartialEq, Eq, Structural)]
pub enum BuildError {
    /// A requested output's file name has no extension, so no target
    /// directory can be derived for it.
    MissingExtension,
    /// An explicitly configured reference document does not exist.
    MissingReferenceDocument,
}

impl BuildError {
    /// A line describing the failure.
    pub fn message(&self) -> (r: &'static str)
        ensures
            r@ == (match self {
                BuildError::MissingExtension => "output lacks valid filename extension"@,
                BuildError::MissingReferenceDocument => "missing reference document"@,
            }),
    {
        match self {
            BuildError::MissingExtension => {
                proof {
                    reveal_strlit("output lacks valid filename extension");
                }
                "output lacks valid filename extension"
            },
            BuildError::MissingReferenceDocument => {
                proof {
                    reveal_strlit("missing reference document");
                }
                "missing reference document"
            },
        }
    }
}

} // verus!
