use vstd::prelude::*;
use crate::error::{same_text, UnknownVariant};

verus! {

/// The kind of compiler artifact a compile request asks for.
#[derive(Copy, Clone, Debug, PartialEq, Eq, Hash)]
pub enum CompileOutput {
    Asm,
    Llvm,
}

/// The compiler flags that select each artifact.
pub open spec fn opts_of(e: CompileOutput) -> Seq<Seq<char>> {
    match e {
        CompileOutput::Asm => seq!["--pass=asm"@],
        CompileOutput::Llvm => seq!["--pass=ir"@],
    }
}

/// The lexer that the highlighter uses for each artifact.
pub open spec fn lexer_of(e: CompileOutput) -> Seq<char> {
    match e {
        CompileOutput::Asm => "gas"@,
        CompileOutput::Llvm => "llvm"@,
    }
}

/// The format that a request string names, if any (case-sensitive).
pub open spec fn format_named(s: Seq<char>) -> Option<CompileOutput> {
    if s == "asm"@ {
        Some(CompileOutput::Asm)
    } else if s == "llvm-ir"@ {
        Some(CompileOutput::Llvm)
    } else {
        None
    }
}

impl CompileOutput {
    /// The flags appended to the compiler invocation for this format.
    pub fn as_opts(&self) -> (r: &'static [&'static str])
        ensures
            r@.len() == opts_of(*self).len(),
            forall|i: int| 0 <= i < r@.len() ==> #[trigger] r@[i]@ == opts_of(*self)[i],
    {
        match *self {
            CompileOutput::Asm => &["--pass=asm"],
            CompileOutput::Llvm => &["--pass=ir"],
        }
    }

    /// The lexer name handed to the highlighter for this format.
    pub fn lexer(&self) -> (r: &'static str)
        ensures
            r@ == lexer_of(*self),
    {
        match *self {
            CompileOutput::Asm => "gas",
            CompileOutput::Llvm => "llvm",
        }
    }

    /// Parses a format name; any string but "asm" and "llvm-ir" is rejected.
    pub fn parse(s: &str) -> (r: Result<CompileOutput, UnknownVariant>)
        ensures
            match r {
                Ok(e) => format_named(s@) == Some(e),
                Err(e) => format_named(s@) is None && e.input@ == s@,
            },
    {
        if same_text(s, "asm") {
            Ok(CompileOutput::Asm)
        } else if same_text(s, "llvm-ir") {
            Ok(CompileOutput::Llvm)
        } else {
            Err(UnknownVariant { input: s.to_owned() })
        }
    }
}

impl core::str::FromStr for CompileOutput {
    type Err = UnknownVariant;

    fn from_str(s: &str) -> (r: Result<CompileOutput, UnknownVariant>)
        ensures
            match r {
                Ok(e) => format_named(s@) == Some(e),
                Err(e) => format_named(s@) is None && e.input@ == s@,
            },
    {
        CompileOutput::parse(s)
    }
}

} // verus!
