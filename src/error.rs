use vstd::prelude::*;

verus! {

/// A selector string (emit format or branch) outside the closed set that the
/// parser accepts. Holds the rejected input verbatim.
#[derive(Debug)]
pub struct UnknownVariant {
    pub input: String,
}

/// Why a sandbox run produced no result. A timeout is not an error: it is a
/// completed run marked as timed out.
#[derive(Copy, Clone, Debug, PartialEq, Eq)]
pub enum SandboxError {
    /// The container could not be provisioned.
    Setup,
    /// Starting, feeding, waiting on or reading the process failed.
    Execution,
}

/// Whether two strings hold the same characters.
pub(crate) fn same_text(a: &str, b: &str) -> (r: bool)
    ensures
        r == (a@ == b@),
{
    let x = a.to_owned();
    let y = b.to_owned();
    x == y
}

} // verus!
