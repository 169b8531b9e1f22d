use vstd::prelude::*;

pub mod branches;
pub mod cache;
pub mod codec;
pub mod emit;
pub mod error;
pub mod playpen;
pub mod request;
pub mod sandbox;

pub use branches::Branch;
pub use cache::{ExecCache, ExitState, Outcome};
pub use emit::CompileOutput;
pub use error::{SandboxError, UnknownVariant};
pub use playpen::{Evaluation, Pending, Playpen};
pub use sandbox::{Action, Event, Phase, RunResult, Verdict};
pub use request::SandboxRequest;

verus! {

} // verus!
