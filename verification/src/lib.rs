//! Embeds an ABI description into a WebAssembly module as a custom section.
//!
//! A module comes in as hexadecimal text and goes out as hexadecimal text.
//! In between it is read, given a custom section named `abi` unless it has
//! one, and written again.

pub mod annotate;
pub mod transport;
pub mod wasm;

use crate::annotate::{
    annotate, annotate_keeps_writable, annotate_prepends, annotated, has_custom,
};
use crate::transport::{
    decode_hex, decode_inverts_encode, decoded, encode_hex, hex_text, DecodeError,
};
use crate::wasm::{
    leb128, module_encoding, module_sections, parse, parse_outcome, sections_encoding, serialize,
    wasm_header, ParseError, SectionView,
};
use vstd::prelude::*;
use vstd::string::StrSliceExecFns;
use vstd::utf8::{encode_utf8, is_ascii_chars, is_ascii_chars_encode_utf8};

verus! {

/// Why a module could not be linked.
#[derive(Debug, Clone, Copy, PartialEq, Eq)]
pub enum LinkError {
    /// The code is no hexadecimal text.
    Decode(DecodeError),
    /// The code is hexadecimal text, and its bytes are no module.
    Parse(ParseError),
}

/// The longest ABI description, in bytes of UTF-8, that a section can hold
/// beside its name.
pub const MAX_ABI_BYTES: u64 = 0xFFFF_FFFB;

/// What linking gives: the text is decoded, its bytes are read as a module,
/// the module is annotated under the name `abi` with the description in
/// UTF-8, written, and encoded.
pub open spec fn linked(code: Seq<char>, abi: Seq<char>) -> Result<Seq<char>, LinkError> {
    match decoded(code) {
        Err(e) => Err(LinkError::Decode(e)),
        Ok(bytes) => match parse_outcome(bytes) {
            Err(e) => Err(LinkError::Parse(e)),
            Ok(sections) => Ok(
                hex_text(module_encoding(annotated(sections, "abi"@, encode_utf8(abi)))),
            ),
        },
    }
}

/// A custom section named `abi` can be written where its payload is no
/// longer than `MAX_ABI_BYTES`.
pub proof fn abi_section_is_writable(payload: Seq<u8>)
    requires
        payload.len() <= MAX_ABI_BYTES,
    ensures
        (SectionView::Custom { name: "abi"@, payload }).writable(),
{
    reveal_strlit("abi");
    let name = "abi"@;
    assert(is_ascii_chars(name));
    is_ascii_chars_encode_utf8(name);
    assert(leb128(3).len() == 1);
}

/// The text that linking gives is hexadecimal text of the module that was
/// written: decoding it gives the bytes of the annotated module back.
pub proof fn linked_text_decodes(
    code: Seq<char>,
    abi: Seq<char>,
    bytes: Seq<u8>,
    sections: Seq<SectionView>,
)
    requires
        decoded(code) == Ok::<Seq<u8>, DecodeError>(bytes),
        parse_outcome(bytes) == Ok::<Seq<SectionView>, ParseError>(sections),
    ensures
        linked(code, abi) matches Ok(text) && decoded(text) == Ok::<Seq<u8>, DecodeError>(
            module_encoding(annotated(sections, "abi"@, encode_utf8(abi))),
        ),
{
    decode_inverts_encode(module_encoding(annotated(sections, "abi"@, encode_utf8(abi))));
}

/// Where the module holds no section named `abi`, linking writes the header,
/// then the new section with the description in UTF-8, then the sections
/// that were there, with the bytes that they had.
pub proof fn link_prepends_abi(
    code: Seq<char>,
    abi: Seq<char>,
    bytes: Seq<u8>,
    sections: Seq<SectionView>,
)
    requires
        decoded(code) == Ok::<Seq<u8>, DecodeError>(bytes),
        parse_outcome(bytes) == Ok::<Seq<SectionView>, ParseError>(sections),
        !has_custom(sections, "abi"@),
    ensures
        linked(code, abi) == Ok::<Seq<char>, LinkError>(
            hex_text(
                wasm_header() + (SectionView::Custom {
                    name: "abi"@,
                    payload: encode_utf8(abi),
                }).encoding() + sections_encoding(sections),
            ),
        ),
{
    annotate_prepends(sections, "abi"@, encode_utf8(abi));
}

/// Where the module holds a section named `abi`, linking keeps it and drops
/// the description: the result is the module as it was read, written again.
pub proof fn link_keeps_abi(
    code: Seq<char>,
    abi: Seq<char>,
    bytes: Seq<u8>,
    sections: Seq<SectionView>,
)
    requires
        decoded(code) == Ok::<Seq<u8>, DecodeError>(bytes),
        parse_outcome(bytes) == Ok::<Seq<SectionView>, ParseError>(sections),
        has_custom(sections, "abi"@),
    ensures
        linked(code, abi) == Ok::<Seq<char>, LinkError>(hex_text(module_encoding(sections))),
{
}

/// Links an ABI description into a module. `code` is the module as
/// hexadecimal text, in which blanks may stand; `abi` is the description. The
/// result is the module as hexadecimal text, with the description in a custom
/// section named `abi` in front of all other sections, unless the module had
/// such a section: then it keeps the one it had.
pub fn link(code: String, abi: String) -> (r: Result<String, LinkError>)
    requires
        encode_utf8(abi@).len() <= MAX_ABI_BYTES,
    ensures
        match r {
            Ok(text) => linked(code@, abi@) == Ok::<Seq<char>, LinkError>(text@),
            Err(e) => linked(code@, abi@) == Err::<Seq<char>, LinkError>(e),
        },
{
    let bytes = match decode_hex(code.as_str()) {
        Ok(bytes) => bytes,
        Err(e) => {
            return Err(LinkError::Decode(e));
        },
    };
    let module = match parse(bytes.as_slice()) {
        Ok(module) => module,
        Err(e) => {
            return Err(LinkError::Parse(e));
        },
    };
    let payload = abi.as_str().as_bytes_vec();
    proof {
        abi_section_is_writable(payload@);
        annotate_keeps_writable(module_sections(module), "abi"@, payload@);
    }
    let module = annotate(module, "abi", payload);
    let written = serialize(module);
    Ok(encode_hex(written.as_slice()))
}

} // verus!
