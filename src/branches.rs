use vstd::prelude::*;
use crate::error::{same_text, UnknownVariant};

verus! {

/// The execution environment a request runs against: the released tool
/// chain or the preview build with region support.
#[derive(Copy, Clone, Debug, PartialEq, Eq, Hash)]
pub enum Branch {
    Release,
    Regions,
}

/// The container image of each branch.
pub open spec fn image_of(b: Branch) -> Seq<char> {
    match b {
        Branch::Release => "ponylang-playpen:latest"@,
        Branch::Regions => "plietar/ponylang-playpen:regions"@,
    }
}

/// The branch that a request string names, if any (case-sensitive).
pub open spec fn branch_named(s: Seq<char>) -> Option<Branch> {
    if s == "release"@ {
        Some(Branch::Release)
    } else if s == "regions"@ {
        Some(Branch::Regions)
    } else {
        None
    }
}

impl Branch {
    /// The container image that requests on this branch run in.
    pub fn image(&self) -> (r: &'static str)
        ensures
            r@ == image_of(*self),
    {
        match *self {
            Branch::Release => "ponylang-playpen:latest",
            Branch::Regions => "plietar/ponylang-playpen:regions",
        }
    }

    /// Parses a branch name; any string but the known names is rejected.
    pub fn parse(s: &str) -> (r: Result<Branch, UnknownVariant>)
        ensures
            match r {
                Ok(b) => branch_named(s@) == Some(b),
                Err(e) => branch_named(s@) is None && e.input@ == s@,
            },
    {
        if same_text(s, "release") {
            Ok(Branch::Release)
        } else if same_text(s, "regions") {
            Ok(Branch::Regions)
        } else {
            Err(UnknownVariant { input: s.to_owned() })
        }
    }
}

impl core::str::FromStr for Branch {
    type Err = UnknownVariant;

    fn from_str(s: &str) -> (r: Result<Branch, UnknownVariant>)
        ensures
            match r {
                Ok(b) => branch_named(s@) == Some(b),
                Err(e) => branch_named(s@) is None && e.input@ == s@,
            },
    {
        Branch::parse(s)
    }
}

} // verus!
