//! Hex-string decoding: a strict lowercase symbol decoder used by the
//! benchmark's ad-hoc converter, and a total case-insensitive decoder used by
//! the JSON-facing data model.

use vstd::prelude::*;

verus! {

use vstd::string::StringSliceAdditionalSpecFns;

/// A lowercase hex symbol: the only symbols `hex_decode_symbol` accepts.
pub open spec fn is_lower_hex_symbol(b: u8) -> bool {
    (0x30 <= b <= 0x39) || (0x61 <= b <= 0x66)
}

/// A hex digit, either case.
pub open spec fn is_hex_digit(b: u8) -> bool {
    (0x30 <= b <= 0x39) || (0x61 <= b <= 0x66) || (0x41 <= b <= 0x46)
}

/// Numeric value of a hex digit (0 for anything else).
pub open spec fn hex_digit_value(b: u8) -> u8 {
    if 0x30 <= b <= 0x39 {
        (b - 0x30) as u8
    } else if 0x61 <= b <= 0x66 {
        (b - 0x61 + 10) as u8
    } else if 0x41 <= b <= 0x46 {
        (b - 0x41 + 10) as u8
    } else {
        0
    }
}

/// The bytes denoted by a sequence of hex digits, two digits per byte.
pub open spec fn spec_hex_bytes(s: Seq<u8>) -> Seq<u8> {
    Seq::new((s.len() / 2) as nat, |i: int| (hex_digit_value(s[2 * i]) * 0x10
        + hex_digit_value(s[2 * i + 1])) as u8)
}

/// Why a hex string was rejected.
#[derive(PartialEq, Eq, Structural, Clone, Copy, Debug)]
pub enum HexError {
    /// The length does not fit the expected shape.
    InvalidLength,
    /// A character is not a hex digit.
    InvalidContent,
}

/// Numeric value of one lowercase hex symbol, as the benchmark's ad-hoc
/// converter reads it; other symbols (uppercase included) are rejected by the
/// precondition, where the original converter aborts.
pub fn hex_decode_symbol(sym: u8) -> (v: u8)
    requires
        is_lower_hex_symbol(sym),
    ensures
        v == hex_digit_value(sym),
{
    if 0x30 <= sym && sym <= 0x39 {
        sym - 0x30
    } else {
        sym - 0x61 + 10
    }
}

/// The benchmark's ad-hoc hex-to-bytes converter: strict lowercase input of
/// even length, two symbols per byte.
pub fn hex_decode(hex: &str) -> (out: Vec<u8>)
    requires
        hex.spec_bytes().len() % 2 == 0,
        forall|i: int|
            0 <= i < hex.spec_bytes().len() ==> is_lower_hex_symbol(#[trigger] hex.spec_bytes()[i]),
    ensures
        out@ == spec_hex_bytes(hex.spec_bytes()),
{
    let bytes = hex.as_bytes();
    let mut out: Vec<u8> = Vec::new();
    let mut i: usize = 0;
    while i < bytes.len()
        invariant
            bytes@ == hex.spec_bytes(),
            bytes@.len() % 2 == 0,
            forall|k: int| 0 <= k < bytes@.len() ==> is_lower_hex_symbol(#[trigger] bytes@[k]),
            i % 2 == 0,
            i <= bytes@.len(),
            out@ == spec_hex_bytes(bytes@.subrange(0, i as int)),
        decreases bytes@.len() - i,
    {
        assert(i + 1 < bytes@.len());
        let hi = hex_decode_symbol(bytes[i]);
        let lo = hex_decode_symbol(bytes[i + 1]);
        out.push(hi * 0x10 + lo);
        i = i + 2;
        assert(out@ =~= spec_hex_bytes(bytes@.subrange(0, i as int)));
    }
    assert(bytes@.subrange(0, i as int) =~= bytes@);
    out
}

/// Total case-insensitive hex decoder: succeeds exactly on even-length,
/// all-hex-digit input.
pub fn decode_hex_digits(h: &[u8]) -> (r: Result<Vec<u8>, HexError>)
    ensures
        h@.len() % 2 != 0 ==> r == Err::<Vec<u8>, HexError>(HexError::InvalidLength),
        h@.len() % 2 == 0 && (exists|i: int| 0 <= i < h@.len() && !is_hex_digit(h@[i])) ==> r
            == Err::<Vec<u8>, HexError>(HexError::InvalidContent),
        (h@.len() % 2 == 0 && forall|i: int| 0 <= i < h@.len() ==> is_hex_digit(#[trigger] h@[i]))
            ==> (r matches Ok(v) && v@ == spec_hex_bytes(h@)),
{
    if h.len() % 2 != 0 {
        return Err(HexError::InvalidLength);
    }
    let mut out: Vec<u8> = Vec::new();
    let mut i: usize = 0;
    while i < h.len()
        invariant
            h@.len() % 2 == 0,
            i % 2 == 0,
            i <= h@.len(),
            forall|k: int| 0 <= k < i ==> is_hex_digit(#[trigger] h@[k]),
            out@ == spec_hex_bytes(h@.subrange(0, i as int)),
        decreases h@.len() - i,
    {
        assert(i + 1 < h@.len());
        let hi = h[i];
        let lo = h[i + 1];
        match (hex_digit_checked(hi), hex_digit_checked(lo)) {
            (Some(a), Some(b)) => {
                out.push(a * 0x10 + b);
                i = i + 2;
                assert(out@ =~= spec_hex_bytes(h@.subrange(0, i as int)));
            },
            _ => {
                return Err(HexError::InvalidContent);
            },
        }
    }
    assert(h@.subrange(0, i as int) =~= h@);
    Ok(out)
}

/// Numeric value of one hex digit, either case, or `None`.
fn hex_digit_checked(b: u8) -> (r: Option<u8>)
    ensures
        is_hex_digit(b) ==> r == Some(hex_digit_value(b)),
        !is_hex_digit(b) ==> r is None,
{
    if 0x30 <= b && b <= 0x39 {
        Some(b - 0x30)
    } else if 0x61 <= b && b <= 0x66 {
        Some(b - 0x61 + 10)
    } else if 0x41 <= b && b <= 0x46 {
        Some(b - 0x41 + 10)
    } else {
        None
    }
}

} // verus!
