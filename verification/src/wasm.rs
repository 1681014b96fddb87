//! The module container: reading a WebAssembly module from bytes and writing
//! it back, with the list of its sections as the model of what it holds.

use parity_wasm::elements::{CustomSection, Error, Module, Section};
use vstd::prelude::*;
use vstd::utf8::encode_utf8;

verus! {

#[verifier::external_type_specification]
#[verifier::external_body]
pub struct ExModule(parity_wasm::elements::Module);

#[verifier::external_type_specification]
#[verifier::external_body]
pub struct ExError(parity_wasm::elements::Error);

/// Why bytes could not be read as a module.
#[derive(Debug, Clone, Copy, PartialEq, Eq)]
pub enum ParseError {
    /// The bytes do not begin with the magic marker and the version.
    BadHeader,
    /// The header is there, and what follows it is no list of sections: one
    /// is cut short, a declared length does not fit what is there, or the
    /// content of a section is not what its kind asks for.
    Malformed,
}

/// One section of a module, as the values that this library reads and writes.
pub enum SectionView {
    /// A custom section: a name and bytes that no runtime looks into.
    Custom { name: Seq<char>, payload: Seq<u8> },
    /// A section of any other kind, standing by the bytes that it is written
    /// as; `None` where it holds a length over 32 bits and cannot be written.
    Other { bytes: Option<Seq<u8>> },
}

/// The longest body that a section can have: its length is written in 32 bits.
pub const MAX_SECTION_BODY: u64 = 0xFFFF_FFFF;

/// The eight bytes that every module begins with: the magic marker and the
/// version 1, little end first.
pub open spec fn wasm_header() -> Seq<u8> {
    seq![0x00u8, 0x61u8, 0x73u8, 0x6du8, 0x01u8, 0x00u8, 0x00u8, 0x00u8]
}

/// Whether bytes begin with the header of a module.
pub open spec fn has_wasm_header(bytes: Seq<u8>) -> bool {
    bytes.len() >= 8 && bytes.take(8) == wasm_header()
}

/// An unsigned number in LEB128: seven bits to a byte, the low ones first,
/// and the high bit set on every byte but the last.
pub open spec fn leb128(n: nat) -> Seq<u8>
    decreases n,
{
    if n < 128 {
        seq![n as u8]
    } else {
        seq![(n % 128 + 128) as u8] + leb128(n / 128)
    }
}

/// The body of a custom section: the length of the name in UTF-8, the name,
/// then the payload as it is.
pub open spec fn custom_section_body(name: Seq<char>, payload: Seq<u8>) -> Seq<u8> {
    leb128(encode_utf8(name).len()) + encode_utf8(name) + payload
}

impl SectionView {
    /// The bytes that the section is written as. A custom section is the
    /// byte 0, the length of its body, and the body.
    pub open spec fn encoding(self) -> Seq<u8> {
        match self {
            SectionView::Custom { name, payload } => {
                let body = custom_section_body(name, payload);
                seq![0u8] + leb128(body.len()) + body
            },
            SectionView::Other { bytes: Some(bytes) } => bytes,
            SectionView::Other { bytes: None } => Seq::empty(),
        }
    }

    /// Whether the section can be written: every length in it fits in 32 bits.
    pub open spec fn writable(self) -> bool {
        match self {
            SectionView::Custom { name, payload } => custom_section_body(name, payload).len()
                <= MAX_SECTION_BODY,
            SectionView::Other { bytes } => bytes is Some,
        }
    }
}

/// Whether every section of a list can be written.
pub open spec fn sections_writable(s: Seq<SectionView>) -> bool {
    forall|i: int| 0 <= i < s.len() ==> (#[trigger] s[i]).writable()
}

/// The bytes of the sections of a list, one after the other.
pub open spec fn sections_encoding(s: Seq<SectionView>) -> Seq<u8>
    decreases s.len(),
{
    if s.len() == 0 {
        Seq::empty()
    } else {
        s.first().encoding() + sections_encoding(s.drop_first())
    }
}

/// The bytes of a module: the header, then its sections in their order.
pub open spec fn module_encoding(s: Seq<SectionView>) -> Seq<u8> {
    wasm_header() + sections_encoding(s)
}

/// The names of the custom sections of a list, in the order of the sections.
pub open spec fn custom_names(s: Seq<SectionView>) -> Seq<Seq<char>>
    decreases s.len(),
{
    if s.len() == 0 {
        Seq::empty()
    } else {
        match s.last() {
            SectionView::Custom { name, .. } => custom_names(s.drop_last()).push(name),
            SectionView::Other { .. } => custom_names(s.drop_last()),
        }
    }
}

/// The sections that a module holds, in their order.
pub uninterp spec fn module_sections(m: Module) -> Seq<SectionView>;

/// The sections that `parity_wasm` reads from bytes, `None` where it rejects
/// them.
pub uninterp spec fn parsed_sections(bytes: Seq<u8>) -> Option<Seq<SectionView>>;

/// `parity_wasm::elements::deserialize_buffer` for a `Module`. What it gives
/// depends on the bytes alone. A module that it read can be written back:
/// each section was declared with a length of 32 bits, and is written no
/// longer than it was read.
#[verifier::external_body]
fn read_module(bytes: &[u8]) -> (r: Result<Module, Error>)
    ensures
        match r {
            Ok(m) => parsed_sections(bytes@) == Some(module_sections(m)) && sections_writable(
                module_sections(m),
            ),
            Err(_) => parsed_sections(bytes@) is None,
        },
{
    parity_wasm::elements::deserialize_buffer::<Module>(bytes)
}

/// `parity_wasm::elements::serialize` for a `Module`: the magic marker and
/// the version, then each section as it is written, in the order of the list.
/// Writing into a `Vec` cannot fail; a length over 32 bits would stop the
/// program, and is left out.
#[verifier::external_body]
fn write_module(m: Module) -> (r: Result<Vec<u8>, Error>)
    requires
        sections_writable(module_sections(m)),
    ensures
        r is Ok,
        r matches Ok(v) ==> v@ == module_encoding(module_sections(m)),
{
    parity_wasm::elements::serialize(m)
}

/// `Module::custom_sections` with `CustomSection::name` for each: the names
/// of the sections of the kind `Section::Custom`, in the order of the list.
#[verifier::external_body]
pub(crate) fn custom_section_names(m: &Module) -> (names: Vec<String>)
    ensures
        names@.len() == custom_names(module_sections(*m)).len(),
        forall|i: int|
            0 <= i < names@.len() ==> (#[trigger] names@[i])@ == custom_names(
                module_sections(*m),
            )[i],
{
    m.custom_sections().map(|s| s.name().to_string()).collect()
}

/// `Vec::insert` at index 0 on `Module::sections_mut`, of a section made by
/// `CustomSection::new`: the new custom section comes first, and the others
/// follow as they were.
#[verifier::external_body]
pub(crate) fn insert_custom_first(m: &mut Module, name: String, payload: Vec<u8>)
    ensures
        module_sections(*final(m)) == seq![
            (SectionView::Custom { name: name@, payload: payload@ }),
        ] + module_sections(*old(m)),
{
    m.sections_mut().insert(0, Section::Custom(CustomSection::new(name, payload)));
}

/// What reading bytes as a module gives: the header is judged first, the
/// list of sections after it.
pub open spec fn parse_outcome(bytes: Seq<u8>) -> Result<Seq<SectionView>, ParseError> {
    if !has_wasm_header(bytes) {
        Err(ParseError::BadHeader)
    } else {
        match parsed_sections(bytes) {
            Some(s) => Ok(s),
            None => Err(ParseError::Malformed),
        }
    }
}

/// Tells whether bytes begin with the header of a module.
pub fn starts_with_header(bytes: &[u8]) -> (b: bool)
    ensures
        b == has_wasm_header(bytes@),
{
    if bytes.len() < 8 {
        return false;
    }
    let b = bytes[0] == 0x00 && bytes[1] == 0x61 && bytes[2] == 0x73 && bytes[3] == 0x6d
        && bytes[4] == 0x01 && bytes[5] == 0x00 && bytes[6] == 0x00 && bytes[7] == 0x00;
    proof {
        let head = bytes@.take(8);
        if b {
            assert(head =~= wasm_header());
        } else {
            assert(head[0] == bytes@[0] && head[1] == bytes@[1] && head[2] == bytes@[2] && head[3]
                == bytes@[3] && head[4] == bytes@[4] && head[5] == bytes@[5] && head[6]
                == bytes@[6] && head[7] == bytes@[7]);
        }
    }
    b
}

/// Reads a module from bytes. The module that comes back holds the sections
/// that were read, in their order, and can be written again.
pub fn parse(bytes: &[u8]) -> (r: Result<Module, ParseError>)
    ensures
        match r {
            Ok(m) => parse_outcome(bytes@) == Ok::<Seq<SectionView>, ParseError>(
                module_sections(m),
            ) && sections_writable(module_sections(m)),
            Err(e) => parse_outcome(bytes@) == Err::<Seq<SectionView>, ParseError>(e),
        },
{
    if !starts_with_header(bytes) {
        return Err(ParseError::BadHeader);
    }
    match read_module(bytes) {
        Ok(m) => Ok(m),
        Err(_) => Err(ParseError::Malformed),
    }
}

/// Writes a module as bytes: the header, then every section in the order of
/// the list, each with the length that its content has.
pub fn serialize(m: Module) -> (bytes: Vec<u8>)
    requires
        sections_writable(module_sections(m)),
    ensures
        bytes@ == module_encoding(module_sections(m)),
{
    match write_module(m) {
        Ok(v) => v,
        Err(_) => vstd::pervasive::unreached(),
    }
}

} // verus!
