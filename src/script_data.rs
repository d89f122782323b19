//! Script data given on the command line, and byte fields shown as hex.
use vstd::prelude::*;

use vstd::string::StringSliceAdditionalSpecFns;

use crate::fmt::starts_with;
use crate::text::push_char;

verus! {

/// `data` without a leading `0x`, if it has one.
pub fn format_hex_data(data: &str) -> (r: &str)
    ensures
        starts_with(data@, "0x"@) ==> r@ == data@.subrange(2, data@.len() as int),
        !starts_with(data@, "0x"@) ==> r@ == data@,
{
    proof {
        reveal_strlit("0x");
    }
    let n = data.unicode_len();
    if n >= 2 && data.get_char(0) == '0' && data.get_char(1) == 'x' {
        assert(data@.subrange(0, 2) =~= "0x"@);
        data.substring_char(2, n)
    } else {
        proof {
            if starts_with(data@, "0x"@) {
                assert(data@.subrange(0, 2)[0] == data@[0]);
                assert(data@.subrange(0, 2)[1] == data@[1]);
            }
        }
        data
    }
}

pub open spec fn hex_digit(d: nat) -> char {
    if d < 10 {
        ((d + 48) as u8) as char
    } else {
        ((d + 87) as u8) as char
    }
}

/// Two lowercase hex digits per byte.
pub open spec fn hex_of(bs: Seq<u8>) -> Seq<char>
    decreases bs.len(),
{
    if bs.len() == 0 {
        Seq::empty()
    } else {
        hex_of(bs.drop_last()).push(hex_digit((bs.last() / 16) as nat)).push(
            hex_digit((bs.last() % 16) as nat),
        )
    }
}

fn hex_digit_char(d: u8) -> (r: char)
    requires
        d < 16,
    ensures
        r == hex_digit(d as nat),
{
    if d < 10 {
        (d + 48) as char
    } else {
        (d + 87) as char
    }
}

/// The bytes as lowercase hex, two digits each.
pub fn format_field_to_hex(rec_data: Vec<u8>) -> (r: String)
    ensures
        r@ == hex_of(rec_data@),
{
    let mut out = String::new();
    let mut i: usize = 0;
    while i < rec_data.len()
        invariant
            i <= rec_data@.len(),
            out@ == hex_of(rec_data@.subrange(0, i as int)),
        decreases rec_data@.len() - i,
    {
        assert(rec_data@.subrange(0, i as int + 1).drop_last() =~= rec_data@.subrange(0, i as int));
        let b = rec_data[i];
        push_char(&mut out, hex_digit_char(b / 16));
        push_char(&mut out, hex_digit_char(b % 16));
        i = i + 1;
    }
    assert(rec_data@.subrange(0, rec_data@.len() as int) =~= rec_data@);
    out
}


/// Why script data could not be read as hex.
#[derive(Clone, Copy, Debug, PartialEq, Eq, Structural)]
pub enum ScriptDataError {
    /// The byte at `index` is no hex digit; `c` is that byte as a character.
    InvalidHexCharacter { c: char, index: usize },
    /// Two digits make a byte, and the number of digits is odd.
    OddLength,
    /// A fixed-size target of the wrong length; decoding into a vector never
    /// reports it.
    InvalidStringLength,
}

/// The value of a hex digit, in either case.
pub open spec fn hex_value(b: u8) -> Option<u8> {
    if 48 <= b <= 57 {
        Some((b - 48) as u8)
    } else if 97 <= b <= 102 {
        Some((b - 87) as u8)
    } else if 65 <= b <= 70 {
        Some((b - 55) as u8)
    } else {
        None
    }
}

pub open spec fn all_hex(bs: Seq<u8>) -> bool {
    forall|i: int| 0 <= i < bs.len() ==> (#[trigger] hex_value(bs[i])) is Some
}

/// Each pair of hex digits as one byte, the first digit the high half.
pub open spec fn hex_decoded(bs: Seq<u8>) -> Seq<u8> {
    Seq::new(
        bs.len() / 2,
        |i: int| (hex_value(bs[2 * i])->0 * 16 + hex_value(bs[2 * i + 1])->0) as u8,
    )
}

/// `index` is the first byte of `bs` that is no hex digit.
pub open spec fn first_non_hex(bs: Seq<u8>, index: nat) -> bool {
    &&& index < bs.len()
    &&& hex_value(bs[index as int]) is None
    &&& forall|j: int| 0 <= j < index ==> (#[trigger] hex_value(bs[j])) is Some
}

/// The outcome of decoding the bytes `bs` as hex.
pub open spec fn hex_outcome(bs: Seq<u8>, r: Result<Vec<u8>, ScriptDataError>) -> bool {
    if bs.len() % 2 == 1 {
        r == Err::<Vec<u8>, ScriptDataError>(ScriptDataError::OddLength)
    } else if all_hex(bs) {
        r matches Ok(v) && v@ == hex_decoded(bs)
    } else {
        r matches Err(ScriptDataError::InvalidHexCharacter { c, index }) && first_non_hex(bs, index as nat)
            && c as u32 == bs[index as int] as u32
    }
}

/// Relies on `hex::decode`: an odd number of digits is `OddLength`; else the
/// first byte that is no hex digit is reported with its index; else each
/// pair of digits becomes one byte.
#[verifier::external_body]
fn decode_hex(data: &str) -> (r: Result<Vec<u8>, ScriptDataError>)
    ensures
        hex_outcome(data.spec_bytes(), r),
{
    match hex::decode(data) {
        Ok(v) => Ok(v),
        Err(hex::FromHexError::InvalidHexCharacter { c, index }) => Err(
            ScriptDataError::InvalidHexCharacter { c, index },
        ),
        Err(hex::FromHexError::OddLength) => Err(ScriptDataError::OddLength),
        Err(hex::FromHexError::InvalidStringLength) => Err(ScriptDataError::InvalidStringLength),
    }
}

/// `s` without a leading `0x`, if it has one.
pub open spec fn strip_hex_prefix(s: Seq<char>) -> Seq<char> {
    if starts_with(s, "0x"@) {
        s.subrange(2, s.len() as int)
    } else {
        s
    }
}

/// Reads script data given as hex, with or without a leading `0x`.
pub fn script_data_from_hex(input: &str) -> (r: Result<Vec<u8>, ScriptDataError>)
    ensures
        hex_outcome(vstd::utf8::encode_utf8(strip_hex_prefix(input@)), r),
{
    let data = format_hex_data(input);
    decode_hex(data)
}

} // verus!
