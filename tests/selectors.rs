use pony_playground::{Branch, CompileOutput};

#[test]
fn asm_format_parses_with_its_flag() {
    let e = CompileOutput::parse("asm").ok().unwrap();
    assert_eq!(e, CompileOutput::Asm);
    assert_eq!(e.as_opts(), &["--pass=asm"]);
}

#[test]
fn llvm_format_parses_with_its_flag() {
    let e = CompileOutput::parse("llvm-ir").ok().unwrap();
    assert_eq!(e, CompileOutput::Llvm);
    assert_eq!(e.as_opts(), &["--pass=ir"]);
}

#[test]
fn unknown_format_is_rejected_verbatim() {
    let e = CompileOutput::parse("bogus").err().unwrap();
    assert_eq!(e.input, "bogus");
}

#[test]
fn format_parse_is_case_sensitive() {
    assert!(CompileOutput::parse("ASM").is_err());
    assert!(CompileOutput::parse("").is_err());
    assert!("llvm".parse::<CompileOutput>().is_err());
}

#[test]
fn format_from_str_matches_parse() {
    assert_eq!("asm".parse::<CompileOutput>().ok(), Some(CompileOutput::Asm));
}

#[test]
fn lexers_follow_format() {
    assert_eq!(CompileOutput::Asm.lexer(), "gas");
    assert_eq!(CompileOutput::Llvm.lexer(), "llvm");
}

#[test]
fn branches_parse_and_map_to_images() {
    assert_eq!(Branch::parse("release").ok(), Some(Branch::Release));
    assert_eq!("regions".parse::<Branch>().ok(), Some(Branch::Regions));
    assert_eq!(Branch::Release.image(), "ponylang-playpen:latest");
    assert_eq!(Branch::Regions.image(), "plietar/ponylang-playpen:regions");
}

#[test]
fn unknown_branch_is_rejected() {
    let e = Branch::parse("nightly").err().unwrap();
    assert_eq!(e.input, "nightly");
    assert!(Branch::parse("Release").is_err());
}

#[test]
fn branch_from_str_has_no_fallback() {
    assert_eq!("release".parse::<Branch>().ok(), Some(Branch::Release));
    let e = "".parse::<Branch>().err().unwrap();
    assert_eq!(e.input, "");
    assert_eq!("bogus".parse::<CompileOutput>().err().unwrap().input, "bogus");
}
