//! Hexadecimal transport text: the form in which the bytes of a module cross
//! the host boundary.

use vstd::prelude::*;

verus! {

/// Why a text could not be read as hexadecimal.
#[derive(Debug, Clone, Copy, PartialEq, Eq)]
pub enum DecodeError {
    /// The text, blanks left out, has an odd number of characters.
    OddLength,
    /// The text, blanks left out, has an even number of characters, and one of
    /// them is no hexadecimal digit.
    InvalidDigit,
}

/// The characters that a text may hold between its digits.
pub open spec fn is_blank(c: char) -> bool {
    c == ' ' || c == '\n' || c == '\t'
}

/// The predicate that keeps what is no blank.
pub open spec fn not_blank() -> spec_fn(char) -> bool {
    |c: char| !is_blank(c)
}

/// A text without its blanks.
pub open spec fn strip_blanks(s: Seq<char>) -> Seq<char> {
    s.filter(not_blank())
}

/// A hexadecimal digit, in either case.
pub open spec fn is_hex_digit(c: char) -> bool {
    ('0' <= c && c <= '9') || ('a' <= c && c <= 'f') || ('A' <= c && c <= 'F')
}

/// The number that a hexadecimal digit stands for.
pub open spec fn hex_digit_value(c: char) -> int {
    if '0' <= c && c <= '9' {
        c as int - '0' as int
    } else if 'a' <= c && c <= 'f' {
        c as int - 'a' as int + 10
    } else if 'A' <= c && c <= 'F' {
        c as int - 'A' as int + 10
    } else {
        0
    }
}

/// The lower-case digit of a number below sixteen.
pub open spec fn hex_digit(n: int) -> char {
    if n < 10 {
        ('0' as u8 + n) as u8 as char
    } else {
        ('a' as u8 + n - 10) as u8 as char
    }
}

/// Whether a text, taken without blanks, is made of pairs of hexadecimal digits.
pub open spec fn is_hex_text(t: Seq<char>) -> bool {
    t.len() % 2 == 0 && forall|i: int| 0 <= i < t.len() ==> is_hex_digit(#[trigger] t[i])
}

/// The bytes that pairs of hexadecimal digits stand for: the first digit of a
/// pair is the high half of its byte.
pub open spec fn hex_bytes(t: Seq<char>) -> Seq<u8> {
    Seq::new(
        (t.len() / 2) as nat,
        |i: int| (16 * hex_digit_value(t[2 * i]) + hex_digit_value(t[2 * i + 1])) as u8,
    )
}

/// The lower-case hexadecimal text of bytes, two digits for each.
pub open spec fn hex_text(b: Seq<u8>) -> Seq<char> {
    Seq::new(
        2 * b.len(),
        |i: int| if i % 2 == 0 { hex_digit(b[i / 2] as int / 16) } else { hex_digit(b[i / 2] as int % 16) },
    )
}

/// What decoding a text gives: blanks are left out first, then the length is
/// judged, then the digits.
pub open spec fn decoded(s: Seq<char>) -> Result<Seq<u8>, DecodeError> {
    let t = strip_blanks(s);
    if t.len() % 2 != 0 {
        Err(DecodeError::OddLength)
    } else if !is_hex_text(t) {
        Err(DecodeError::InvalidDigit)
    } else {
        Ok(hex_bytes(t))
    }
}

#[verifier::external_type_specification]
#[verifier::external_body]
pub struct ExFromHexError(hex::FromHexError);

/// `hex::decode_to_slice`, which reads `data` as ASCII hexadecimal digits and
/// fills `out` with their bytes. It succeeds exactly when `data` is twice as
/// long as `out` and holds digits only, and then every byte of `out` is made
/// of its pair of digits, high half first. `out` keeps its length; after a
/// failure nothing is said of what it holds.
#[verifier::external_body]
fn hex_decode_to_slice(data: &Vec<u8>, out: &mut Vec<u8>) -> (r: Result<(), hex::FromHexError>)
    ensures
        final(out)@.len() == old(out)@.len(),
        r is Ok <==> (data@.len() == 2 * old(out)@.len() && forall|i: int|
            0 <= i < data@.len() ==> is_hex_digit(#[trigger] data@[i] as char)),
        r is Ok ==> forall|i: int|
            0 <= i < final(out)@.len() ==> (#[trigger] final(out)@[i]) as int == 16
                * hex_digit_value(data@[2 * i] as char) + hex_digit_value(
                data@[2 * i + 1] as char,
            ),
{
    hex::decode_to_slice(data, out.as_mut_slice())
}

/// `hex::ToHex::encode_hex`, collected into a `String`: two lower-case digits
/// for each byte, the high half first, and nothing between them.
#[verifier::external_body]
fn hex_encode(data: &[u8]) -> (r: String)
    ensures
        r@ == hex_text(data@),
{
    hex::ToHex::encode_hex::<String>(&data)
}

/// The plain byte of a character, where it has one.
fn ascii_byte(c: char) -> (r: Option<u8>)
    ensures
        r is Some <==> (c as u32) < 128,
        r matches Some(b) ==> b as char == c,
{
    if (c as u32) < 128 {
        Some(c as u8)
    } else {
        None
    }
}

/// Reads hexadecimal text. Spaces, tabs and line feeds are passed over; what
/// is left has to be an even number of digits, of either case.
pub fn decode_hex(s: &str) -> (r: Result<Vec<u8>, DecodeError>)
    ensures
        match r {
            Ok(v) => decoded(s@) == Ok::<Seq<u8>, DecodeError>(v@),
            Err(e) => decoded(s@) == Err::<Seq<u8>, DecodeError>(e),
        },
{
    let mut digits: Vec<u8> = Vec::new();
    let mut odd = false;
    let mut plain = true;
    for c in it: s.chars()
        invariant
            it.seq() == s@,
            odd == (strip_blanks(s@.take(it.index())).len() % 2 == 1),
            plain ==> digits@.len() == strip_blanks(s@.take(it.index())).len(),
            plain ==> forall|j: int|
                0 <= j < digits@.len() ==> (#[trigger] digits@[j]) as char == strip_blanks(
                    s@.take(it.index()),
                )[j],
            !plain ==> exists|j: int|
                0 <= j < strip_blanks(s@.take(it.index())).len() && !is_hex_digit(
                    #[trigger] strip_blanks(s@.take(it.index()))[j],
                ),
    {
        let ghost kept = strip_blanks(s@.take(it.index()));
        proof {
            let before = s@.take(it.index());
            assert(s@.take(it.index() + 1) == before.push(c));
            before.lemma_filter_push(c, not_blank());
            if !plain {
                let j = choose|j: int| 0 <= j < kept.len() && !is_hex_digit(#[trigger] kept[j]);
                assert(!is_hex_digit(strip_blanks(s@.take(it.index() + 1))[j]));
            }
        }
        if c != ' ' && c != '\n' && c != '\t' {
            odd = !odd;
            match ascii_byte(c) {
                Some(b) => {
                    if plain {
                        digits.push(b);
                    }
                },
                None => {
                    plain = false;
                    assert(!is_hex_digit(strip_blanks(s@.take(it.index() + 1))[kept.len() as int]));
                },
            }
        }
    }
    assert(s@.take(s@.len() as int) == s@);
    let ghost kept = strip_blanks(s@);
    if odd {
        return Err(DecodeError::OddLength);
    }
    if !plain {
        return Err(DecodeError::InvalidDigit);
    }
    let mut out: Vec<u8> = vec![0u8; digits.len() / 2];
    match hex_decode_to_slice(&digits, &mut out) {
        Ok(()) => {
            assert forall|i: int| 0 <= i < kept.len() implies is_hex_digit(#[trigger] kept[i]) by {
                assert(is_hex_digit(digits@[i] as char));
            }
            assert(out@ =~= hex_bytes(kept));
            Ok(out)
        },
        Err(_) => {
            assert(!is_hex_text(kept)) by {
                if is_hex_text(kept) {
                    assert forall|i: int| 0 <= i < digits@.len() implies is_hex_digit(
                        #[trigger] digits@[i] as char,
                    ) by {
                        assert(is_hex_digit(kept[i]));
                    }
                }
            }
            Err(DecodeError::InvalidDigit)
        },
    }
}

/// Writes bytes as hexadecimal text: two lower-case digits for each byte.
pub fn encode_hex(bytes: &[u8]) -> (r: String)
    ensures
        r@ == hex_text(bytes@),
{
    hex_encode(bytes)
}

/// Hexadecimal text as `encode_hex` writes it: digits only, none of them an
/// upper-case letter.
pub open spec fn is_canonical_hex(t: Seq<char>) -> bool {
    is_hex_text(t) && forall|i: int| 0 <= i < t.len() ==> !('A' <= #[trigger] t[i] && t[i] <= 'F')
}

/// A text that holds no blank is its own stripped form.
pub proof fn strip_blanks_of_unblanked(t: Seq<char>)
    requires
        forall|i: int| 0 <= i < t.len() ==> !is_blank(#[trigger] t[i]),
    ensures
        strip_blanks(t) == t,
    decreases t.len(),
{
    if t.len() == 0 {
        assert(strip_blanks(t) =~= t);
    } else {
        strip_blanks_of_unblanked(t.drop_last());
        t.drop_last().lemma_filter_push(t.last(), not_blank());
        assert(t.drop_last().push(t.last()) =~= t);
    }
}

/// What `encode_hex` writes is canonical hexadecimal text.
pub proof fn hex_text_is_canonical(b: Seq<u8>)
    ensures
        is_canonical_hex(hex_text(b)),
        strip_blanks(hex_text(b)) == hex_text(b),
{
    let t = hex_text(b);
    assert forall|i: int| 0 <= i < t.len() implies is_hex_digit(#[trigger] t[i]) && !is_blank(t[i])
        && !('A' <= t[i] && t[i] <= 'F') by {
        let n = if i % 2 == 0 { b[i / 2] as int / 16 } else { b[i / 2] as int % 16 };
        assert(0 <= n < 16);
        assert(t[i] == hex_digit(n));
    }
    strip_blanks_of_unblanked(t);
}

/// Decoding inverts encoding: whatever the bytes, the text that `encode_hex`
/// writes for them decodes, and to the same bytes.
pub proof fn decode_inverts_encode(b: Seq<u8>)
    ensures
        decoded(hex_text(b)) == Ok::<Seq<u8>, DecodeError>(b),
{
    let t = hex_text(b);
    hex_text_is_canonical(b);
    assert forall|i: int| 0 <= i < b.len() implies hex_bytes(t)[i] == b[i] by {
        let hi = b[i] as int / 16;
        let lo = b[i] as int % 16;
        assert(t[2 * i] == hex_digit(hi));
        assert(t[2 * i + 1] == hex_digit(lo));
        assert(hex_digit_value(hex_digit(hi)) == hi);
        assert(hex_digit_value(hex_digit(lo)) == lo);
    }
    assert(hex_bytes(t) =~= b);
}

/// Encoding inverts decoding on canonical text: where a text, its blanks left
/// out, is canonical hexadecimal, it decodes, and encoding the bytes gives
/// that text back without its blanks.
pub proof fn encode_inverts_decode(s: Seq<char>)
    requires
        is_canonical_hex(strip_blanks(s)),
    ensures
        decoded(s) == Ok::<Seq<u8>, DecodeError>(hex_bytes(strip_blanks(s))),
        hex_text(hex_bytes(strip_blanks(s))) == strip_blanks(s),
{
    let t = strip_blanks(s);
    let b = hex_bytes(t);
    assert forall|i: int| 0 <= i < t.len() implies hex_text(b)[i] == t[i] by {
        let k = i / 2;
        assert(is_hex_digit(t[2 * k]) && !('A' <= t[2 * k] && t[2 * k] <= 'F'));
        assert(is_hex_digit(t[2 * k + 1]) && !('A' <= t[2 * k + 1] && t[2 * k + 1] <= 'F'));
        let hi = hex_digit_value(t[2 * k]);
        let lo = hex_digit_value(t[2 * k + 1]);
        assert(0 <= hi < 16 && 0 <= lo < 16);
        assert(b[k] as int == 16 * hi + lo);
        assert((16 * hi + lo) / 16 == hi && (16 * hi + lo) % 16 == lo);
        assert(hex_digit(hi) == t[2 * k]);
        assert(hex_digit(lo) == t[2 * k + 1]);
    }
    assert(hex_text(b) =~= t);
}

} // verus!
