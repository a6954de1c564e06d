use vstd::prelude::*;
use vstd::slice::slice_subrange;
use vstd::string::*;

verus! {

/// Why a hex code does not decode.
#[derive(Clone, Copy, Debug, PartialEq, Eq, Structural)]
pub enum HexError {
    /// A byte that is no hex digit, the first one, at `index`.
    InvalidHexCharacter { c: char, index: usize },
    /// An odd number of digits.
    OddLength,
    /// A length that the decoded value cannot have.
    InvalidStringLength,
    /// No digits at all, where a byte was asked for.
    Empty,
}

/// `b` is an ASCII hex digit, in either case.
pub open spec fn is_hex_digit(b: u8) -> bool {
    (0x30 <= b <= 0x39) || (0x41 <= b <= 0x46) || (0x61 <= b <= 0x66)
}

/// The value of hex digit `b`.
pub open spec fn hex_value(b: u8) -> int {
    if b <= 0x39 {
        b - 0x30
    } else if b <= 0x46 {
        b - 0x41 + 10
    } else {
        b - 0x61 + 10
    }
}

/// `d` is an even number of hex digits.
pub open spec fn is_hex(d: Seq<u8>) -> bool {
    d.len() % 2 == 0 && forall|i: int| 0 <= i < d.len() ==> is_hex_digit(#[trigger] d[i])
}

/// Byte `i` of `d` is no hex digit, and every byte before it is one.
pub open spec fn first_non_hex(d: Seq<u8>, i: int) -> bool {
    &&& 0 <= i < d.len()
    &&& !is_hex_digit(d[i])
    &&& forall|j: int| 0 <= j < i ==> is_hex_digit(#[trigger] d[j])
}

/// The bytes that the hex digits `d` stand for, two digits to a byte, the
/// high digit first.
pub open spec fn hex_bytes(d: Seq<u8>) -> Seq<u8> {
    Seq::new(d.len() / 2, |i: int| (hex_value(d[2 * i]) * 16 + hex_value(d[2 * i + 1])) as u8)
}

/// The first byte that the hex code `d` stands for, if `d` is a non-empty hex
/// code.
pub open spec fn hex_byte(d: Seq<u8>) -> Option<u8> {
    if d.len() >= 2 && is_hex(d) {
        Some((hex_value(d[0]) * 16 + hex_value(d[1])) as u8)
    } else {
        None
    }
}

/// The color that the hex code `d` names: two digits each for red and green,
/// then a hex code of which blue is the first byte.
pub open spec fn color_of(d: Seq<u8>) -> Option<(u8, u8, u8)> {
    if d.len() >= 4 {
        match (
            hex_byte(d.subrange(0, 2)),
            hex_byte(d.subrange(2, 4)),
            hex_byte(d.subrange(4, d.len() as int)),
        ) {
            (Some(r), Some(g), Some(b)) => Some((r, g, b)),
            _ => None,
        }
    } else {
        None
    }
}

/// Relies on hex::decode: an odd length fails with `OddLength`; otherwise the
/// first byte, in order, that is no hex digit fails with `InvalidHexCharacter`
/// (the byte as a char, and its index); otherwise each pair of digits gives
/// one byte, the high digit first.
#[verifier::external_body]
fn decode_hex(data: &[u8]) -> (r: Result<Vec<u8>, HexError>)
    ensures
        r is Ok <==> is_hex(data@),
        r matches Ok(v) ==> v@ == hex_bytes(data@),
        (r matches Err(HexError::OddLength)) <==> data@.len() % 2 == 1,
        r is Err && r->Err_0 is InvalidHexCharacter ==> data@.len() % 2 == 0 && first_non_hex(
            data@,
            r->Err_0->index as int,
        ) && r->Err_0->c as u32 == data@[r->Err_0->index as int] as u32,
        !(r matches Err(HexError::InvalidStringLength)),
        !(r matches Err(HexError::Empty)),
{
    match hex::decode(data) {
        Ok(v) => Ok(v),
        Err(hex::FromHexError::InvalidHexCharacter { c, index }) => Err(
            HexError::InvalidHexCharacter { c, index },
        ),
        Err(hex::FromHexError::OddLength) => Err(HexError::OddLength),
        Err(hex::FromHexError::InvalidStringLength) => Err(HexError::InvalidStringLength),
    }
}

/// Decodes the first byte of the hex code `hexbyte`.
pub fn hex_to_u8(hexbyte: &[u8]) -> (r: Result<u8, HexError>)
    ensures
        match hex_byte(hexbyte@) {
            Some(b) => r == Ok::<u8, HexError>(b),
            None => r is Err,
        },
        r == Err::<u8, HexError>(HexError::Empty) <==> hexbyte@.len() == 0,
        r == Err::<u8, HexError>(HexError::OddLength) <==> hexbyte@.len() % 2 == 1,
        r is Err && r->Err_0 is InvalidHexCharacter ==> first_non_hex(
            hexbyte@,
            r->Err_0->index as int,
        ) && r->Err_0->c as u32 == hexbyte@[r->Err_0->index as int] as u32,
        !(r matches Err(HexError::InvalidStringLength)),
{
    match decode_hex(hexbyte) {
        Ok(v) => {
            if v.len() > 0 {
                Ok(v[0])
            } else {
                Err(HexError::Empty)
            }
        },
        Err(e) => Err(e),
    }
}

/// Parses a color written as a hex code, `RRGGBB`, into its red, green and
/// blue components. On failure the error is a message that names the code.
pub fn hex_to_col(hexcol: &str) -> (r: Result<(u8, u8, u8), String>)
    ensures
        match color_of(hexcol.spec_bytes()) {
            Some(c) => r == Ok::<(u8, u8, u8), String>(c),
            None => r matches Err(e) && e@ == "Error converting hex '"@ + hexcol@
                + "' to decimal, using default"@,
        },
{
    let bytes = hexcol.as_bytes();
    let n = bytes.len();
    if n >= 4 {
        let r = hex_to_u8(slice_subrange(bytes, 0, 2));
        let g = hex_to_u8(slice_subrange(bytes, 2, 4));
        let b = hex_to_u8(slice_subrange(bytes, 4, n));
        if let (Ok(r), Ok(g), Ok(b)) = (r, g, b) {
            return Ok((r, g, b));
        }
    }
    let mut msg = String::from_str("Error converting hex '");
    msg.append(hexcol);
    msg.append("' to decimal, using default");
    Err(msg)
}

} // verus!
