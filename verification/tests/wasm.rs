use linker::wasm::{parse, serialize, starts_with_header, ParseError};
use parity_wasm::elements::{CustomSection, Module, Section};

const HEADER: [u8; 8] = [0x00, 0x61, 0x73, 0x6d, 0x01, 0x00, 0x00, 0x00];

/// A module with one function of no parameters and an empty body.
fn small_module() -> Vec<u8> {
    let mut bytes = HEADER.to_vec();
    bytes.extend_from_slice(&[0x01, 0x04, 0x01, 0x60, 0x00, 0x00]);
    bytes.extend_from_slice(&[0x03, 0x02, 0x01, 0x00]);
    bytes.extend_from_slice(&[0x0a, 0x04, 0x01, 0x02, 0x00, 0x0b]);
    bytes
}

#[test]
fn header_is_recognised() {
    assert!(starts_with_header(&HEADER));
    assert!(starts_with_header(&small_module()));
    assert!(!starts_with_header(&[]));
    assert!(!starts_with_header(&HEADER[..7]));
    assert!(!starts_with_header(&[0x00, 0x61, 0x73, 0x6d, 0x02, 0x00, 0x00, 0x00]));
    assert!(!starts_with_header(&[0x01, 0x61, 0x73, 0x6d, 0x01, 0x00, 0x00, 0x00]));
    assert!(!starts_with_header(&[0x00, 0x61, 0x73, 0x6d, 0x01, 0x00, 0x00, 0x01]));
}

#[test]
fn parse_reads_the_empty_module() {
    let module = parse(&HEADER).unwrap();
    assert_eq!(module.sections().len(), 0);
    assert_eq!(module, Module::new(vec![]));
}

#[test]
fn parse_reads_sections_in_order() {
    let module = parse(&small_module()).unwrap();
    assert_eq!(module.sections().len(), 3);
    assert!(matches!(module.sections()[0], Section::Type(_)));
    assert!(matches!(module.sections()[1], Section::Function(_)));
    assert!(matches!(module.sections()[2], Section::Code(_)));
}

#[test]
fn parse_reads_a_custom_section() {
    let mut bytes = HEADER.to_vec();
    bytes.extend_from_slice(&[0x00, 0x06, 0x03, 0x61, 0x62, 0x69, 0x01, 0x02]);
    let module = parse(&bytes).unwrap();
    let expected = Section::Custom(CustomSection::new("abi".to_string(), vec![1, 2]));
    assert_eq!(module.sections(), &[expected]);
}

#[test]
fn parse_rejects_bad_header() {
    assert_eq!(parse(&[]), Err(ParseError::BadHeader));
    assert_eq!(parse(&[0x00, 0x61, 0x73]), Err(ParseError::BadHeader));
    assert_eq!(parse(&HEADER[..7]), Err(ParseError::BadHeader));
    assert_eq!(
        parse(&[0x00, 0x61, 0x73, 0x6e, 0x01, 0x00, 0x00, 0x00]),
        Err(ParseError::BadHeader)
    );
    assert_eq!(
        parse(&[0x00, 0x61, 0x73, 0x6d, 0x02, 0x00, 0x00, 0x00]),
        Err(ParseError::BadHeader)
    );
}

#[test]
fn parse_rejects_truncated_last_section() {
    let whole = small_module();
    let cut = &whole[..whole.len() - 1];
    assert_eq!(parse(cut), Err(ParseError::Malformed));
    let mut bytes = HEADER.to_vec();
    bytes.extend_from_slice(&[0x01, 0x05, 0x00]);
    assert_eq!(parse(&bytes), Err(ParseError::Malformed));
    let mut bytes = HEADER.to_vec();
    bytes.extend_from_slice(&[0x00, 0x06, 0x03, 0x61, 0x62]);
    assert_eq!(parse(&bytes), Err(ParseError::Malformed));
}

#[test]
fn parse_rejects_a_section_without_its_length() {
    let mut bytes = HEADER.to_vec();
    bytes.push(0x01);
    assert_eq!(parse(&bytes), Err(ParseError::Malformed));
}

#[test]
fn parse_rejects_length_mismatch() {
    let mut bytes = HEADER.to_vec();
    bytes.extend_from_slice(&[0x01, 0x05, 0x01, 0x60, 0x00, 0x00]);
    assert_eq!(parse(&bytes), Err(ParseError::Malformed));
    let mut bytes = HEADER.to_vec();
    bytes.extend_from_slice(&[0x01, 0x03, 0x01, 0x60, 0x00, 0x00]);
    assert_eq!(parse(&bytes), Err(ParseError::Malformed));
}

#[test]
fn parse_rejects_unknown_section_kind() {
    let mut bytes = HEADER.to_vec();
    bytes.extend_from_slice(&[0x0d, 0x00]);
    assert_eq!(parse(&bytes), Err(ParseError::Malformed));
}

#[test]
fn parse_rejects_sections_out_of_order() {
    let mut bytes = HEADER.to_vec();
    bytes.extend_from_slice(&[0x03, 0x01, 0x00]);
    bytes.extend_from_slice(&[0x01, 0x01, 0x00]);
    assert_eq!(parse(&bytes), Err(ParseError::Malformed));
}

#[test]
fn serialize_writes_the_header_alone_for_no_sections() {
    assert_eq!(serialize(Module::new(vec![])), HEADER.to_vec());
}

#[test]
fn serialize_writes_a_custom_section() {
    let section = Section::Custom(CustomSection::new("abi".to_string(), vec![1, 2]));
    let mut expected = HEADER.to_vec();
    expected.extend_from_slice(&[0x00, 0x06, 0x03, 0x61, 0x62, 0x69, 0x01, 0x02]);
    assert_eq!(serialize(Module::new(vec![section])), expected);
}

#[test]
fn serialize_writes_the_name_in_utf8() {
    let section = Section::Custom(CustomSection::new("\u{e9}".to_string(), vec![7]));
    let mut expected = HEADER.to_vec();
    expected.extend_from_slice(&[0x00, 0x04, 0x02, 0xc3, 0xa9, 0x07]);
    assert_eq!(serialize(Module::new(vec![section])), expected);
}

#[test]
fn serialize_writes_long_lengths_in_several_bytes() {
    let payload = vec![0x2a; 200];
    let section = Section::Custom(CustomSection::new("n".to_string(), payload.clone()));
    let mut expected = HEADER.to_vec();
    expected.extend_from_slice(&[0x00, 0xca, 0x01, 0x01, 0x6e]);
    expected.extend_from_slice(&payload);
    assert_eq!(serialize(Module::new(vec![section])), expected);

    let payload = vec![0x2a; 16384];
    let section = Section::Custom(CustomSection::new("n".to_string(), payload.clone()));
    let mut expected = HEADER.to_vec();
    expected.extend_from_slice(&[0x00, 0x82, 0x80, 0x01, 0x01, 0x6e]);
    expected.extend_from_slice(&payload);
    assert_eq!(serialize(Module::new(vec![section])), expected);
}

#[test]
fn serialize_writes_a_long_name_with_its_length() {
    let name = "x".repeat(130);
    let section = Section::Custom(CustomSection::new(name.clone(), vec![]));
    let mut expected = HEADER.to_vec();
    expected.extend_from_slice(&[0x00, 0x84, 0x01, 0x82, 0x01]);
    expected.extend_from_slice(name.as_bytes());
    assert_eq!(serialize(Module::new(vec![section])), expected);
}

#[test]
fn serialize_writes_sections_in_order() {
    let first = Section::Custom(CustomSection::new("a".to_string(), vec![1]));
    let second = Section::Custom(CustomSection::new("b".to_string(), vec![2]));
    let mut expected = HEADER.to_vec();
    expected.extend_from_slice(&[0x00, 0x03, 0x01, 0x61, 0x01]);
    expected.extend_from_slice(&[0x00, 0x03, 0x01, 0x62, 0x02]);
    assert_eq!(serialize(Module::new(vec![first, second])), expected);
}

#[test]
fn serialize_gives_back_the_bytes_that_were_parsed() {
    let bytes = small_module();
    assert_eq!(serialize(parse(&bytes).unwrap()), bytes);
}

#[test]
fn parse_gives_back_the_module_that_was_serialized() {
    let mut bytes = small_module();
    bytes.extend_from_slice(&[0x00, 0x06, 0x03, 0x61, 0x62, 0x69, 0x01, 0x02]);
    let module = parse(&bytes).unwrap();
    let again = parse(&serialize(module.clone())).unwrap();
    assert_eq!(again, module);
}

#[test]
fn serialize_shortens_a_padded_length() {
    let mut bytes = HEADER.to_vec();
    bytes.extend_from_slice(&[0x00, 0x83, 0x00, 0x01, 0x61, 0x09]);
    let module = parse(&bytes).unwrap();
    let mut expected = HEADER.to_vec();
    expected.extend_from_slice(&[0x00, 0x03, 0x01, 0x61, 0x09]);
    assert_eq!(serialize(module.clone()), expected);
    assert_eq!(parse(&expected).unwrap(), module);
}
