//! The error taxonomy of the pipeline. Every error is fatal at its origin
//! and carries the message shown to the operator.

use vstd::prelude::*;

verus! {

#[derive(Debug, Clone)]
pub enum Error {
    /// A malformed shortlink, an unknown vendor, a missing domain or a
    /// path with no derivable project name.
    Resolution(String),
    /// No matching remote ref, or no default branch derivable.
    RemoteRef(String),
    /// A failed download, clone or extraction, or a missing archive
    /// descriptor.
    Fetch(String),
    /// The computed destination already exists before a fresh-copy run.
    DeployConflict(String),
    /// A swap with neither a value nor a value template.
    SwapConfig(String),
    /// A swap template that does not render.
    SwapRender(String),
    /// A cancelled interaction that breaks the run, or a failing command.
    Action(String),
    /// A file-system failure surfaced by a collaborator during a copy.
    Io(String),
}

impl Error {
    pub open spec fn spec_message(&self) -> Seq<char> {
        match self {
            Error::Resolution(m) => m@,
            Error::RemoteRef(m) => m@,
            Error::Fetch(m) => m@,
            Error::DeployConflict(m) => m@,
            Error::SwapConfig(m) => m@,
            Error::SwapRender(m) => m@,
            Error::Action(m) => m@,
            Error::Io(m) => m@,
        }
    }

    /// The operator-facing description of this error.
    pub fn message(&self) -> (r: String)
        ensures
            r@ == self.spec_message(),
    {
        match self {
            Error::Resolution(m) => m.clone(),
            Error::RemoteRef(m) => m.clone(),
            Error::Fetch(m) => m.clone(),
            Error::DeployConflict(m) => m.clone(),
            Error::SwapConfig(m) => m.clone(),
            Error::SwapRender(m) => m.clone(),
            Error::Action(m) => m.clone(),
            Error::Io(m) => m.clone(),
        }
    }
}

} // verus!
