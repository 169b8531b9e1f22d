use pony_playground::codec::{separator_index, split_output, parse_output};
use pony_playground::Playpen;

#[test]
fn separator_splits_diagnostics_from_output() {
    let mut raw = b"warning: x".to_vec();
    raw.push(0xFF);
    raw.extend_from_slice(b"hello");
    let (d, p) = split_output(&raw);
    assert_eq!(d, b"warning: x".to_vec());
    assert_eq!(p, Some(b"hello".to_vec()));
}

#[test]
fn no_separator_means_no_program_output() {
    let (d, p) = split_output(b"error: bad");
    assert_eq!(d, b"error: bad".to_vec());
    assert_eq!(p, None);
}

#[test]
fn empty_program_output_differs_from_absent() {
    let (c, o) = parse_output(b"diag\xff");
    assert_eq!(c, "diag");
    assert_eq!(o, Some(String::new()));
    let (c, o) = parse_output(b"diag");
    assert_eq!(c, "diag");
    assert_eq!(o, None);
}

#[test]
fn only_first_separator_splits() {
    let (d, p) = split_output(b"a\xffb\xffc");
    assert_eq!(d, b"a".to_vec());
    assert_eq!(p, Some(b"b\xffc".to_vec()));
    assert_eq!(separator_index(b"a\xffb\xffc"), 1);
    assert_eq!(separator_index(b"abc"), 3);
}

#[test]
fn empty_stream_decodes_to_empty_diagnostics() {
    let (c, o) = Playpen::parse_output(b"");
    assert_eq!(c, "");
    assert_eq!(o, None);
}

#[test]
fn invalid_utf8_is_replaced_not_rejected() {
    let (c, o) = parse_output(b"a\xc3(\xffz\xc3");
    assert_eq!(c, "a\u{FFFD}(");
    assert_eq!(o, Some("z\u{FFFD}".to_string()));
}

#[test]
fn round_trip_of_encoded_parts() {
    let diagnostics = b"   Compiling main\n".to_vec();
    let program = b"line one\nline two\xff".to_vec();
    let mut raw = diagnostics.clone();
    raw.push(0xFF);
    raw.extend_from_slice(&program);
    assert_eq!(split_output(&raw), (diagnostics.clone(), Some(program)));
    assert_eq!(split_output(&diagnostics), (diagnostics, None));
}
