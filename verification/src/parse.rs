//! The Extended-Squitter message decoder: hex text to a 112-bit string,
//! fixed-length validation, type-code dispatch, and field extraction.
//!
//! Positions use a simplified single-message scaling formula (not true
//! CPR decompression), and the velocity field is the raw 10-bit speed
//! value; both are deliberate simplifications of this receiver, not to
//! be silently replaced with the full algorithms.

use vstd::prelude::*;
use vstd::arithmetic::power2::{pow2, lemma2_to64, lemma_pow2_unfold, lemma_pow2_pos};
use vstd::slice::slice_subrange;

verus! {

/// Why a message failed to decode. Both cases are recoverable,
/// per-message failures: the acquisition loop goes on.
#[derive(Debug, PartialEq, Eq, Clone, Copy)]
pub enum DecodeError {
    /// A character of the hex payload is not a hexadecimal digit.
    InvalidHexDigit,
    /// The bit string is not exactly 112 bits long.
    InvalidLength,
}

/// One decoded Extended-Squitter message, keyed by the 5-bit type code
/// at bits [32,37). Latitude and longitude are fixed-point: the field
/// holds the angle in degrees times 131072 (2^17), which represents the
/// scaling formula's result exactly.
#[derive(Debug, PartialEq)]
pub enum DecodedMessage {
    Identification { type_code: u8, category: u8, callsign: Vec<char> },
    SurfacePosition { type_code: u8, lat_scaled: i32, lon_scaled: i32 },
    AirbornePosition { type_code: u8, altitude_ft: i32, lat_scaled: i32, lon_scaled: i32 },
    AirborneVelocity { type_code: u8, speed_knots: u16 },
    Reserved { type_code: u8 },
    Test { type_code: u8 },
    ExtendedSquitter { type_code: u8 },
    Unknown { type_code: u8 },
}

/// The semantic category a type code selects.
#[derive(Debug, PartialEq, Eq, Clone, Copy)]
pub enum MessageClass {
    Identification,
    SurfacePosition,
    AirbornePosition,
    AirborneVelocity,
    Reserved,
    Test,
    ExtendedSquitter,
    Unknown,
}

/// The type-code dispatch table as one total function over the 5-bit
/// type code: 1-4 identification, 5-8 surface position, 9-18 airborne
/// position, 19 airborne velocity, 20-22 reserved, 23-27 test, 28-31
/// miscellaneous extended squitter, anything else unknown.
pub open spec fn class_of_type_code(tc: int) -> MessageClass {
    if 1 <= tc <= 4 {
        MessageClass::Identification
    } else if 5 <= tc <= 8 {
        MessageClass::SurfacePosition
    } else if 9 <= tc <= 18 {
        MessageClass::AirbornePosition
    } else if tc == 19 {
        MessageClass::AirborneVelocity
    } else if 20 <= tc <= 22 {
        MessageClass::Reserved
    } else if 23 <= tc <= 27 {
        MessageClass::Test
    } else if 28 <= tc <= 31 {
        MessageClass::ExtendedSquitter
    } else {
        MessageClass::Unknown
    }
}

/// The type-code table is exhaustive and exclusive: every 5-bit value
/// falls in exactly one row, and each class comes from exactly the rows
/// the table gives it.
pub proof fn lemma_type_code_table(tc: int)
    requires
        0 <= tc < 32,
    ensures
        class_of_type_code(tc) == MessageClass::Identification <==> 1 <= tc <= 4,
        class_of_type_code(tc) == MessageClass::SurfacePosition <==> 5 <= tc <= 8,
        class_of_type_code(tc) == MessageClass::AirbornePosition <==> 9 <= tc <= 18,
        class_of_type_code(tc) == MessageClass::AirborneVelocity <==> tc == 19,
        class_of_type_code(tc) == MessageClass::Reserved <==> 20 <= tc <= 22,
        class_of_type_code(tc) == MessageClass::Test <==> 23 <= tc <= 27,
        class_of_type_code(tc) == MessageClass::ExtendedSquitter <==> 28 <= tc <= 31,
        class_of_type_code(tc) == MessageClass::Unknown <==> tc == 0,
{
}

/// The unsigned integer a bit string denotes, most significant bit first.
pub open spec fn uint_of_bits(s: Seq<bool>) -> nat
    decreases s.len(),
{
    if s.len() == 0 {
        0
    } else {
        2 * uint_of_bits(s.drop_last()) + (if s.last() { 1nat } else { 0nat })
    }
}

/// An `n`-bit string denotes a value below 2^n.
pub proof fn lemma_uint_of_bits_bound(s: Seq<bool>)
    ensures
        uint_of_bits(s) < pow2(s.len()),
    decreases s.len(),
{
    if s.len() == 0 {
        lemma_pow2_pos(0);
    } else {
        lemma_uint_of_bits_bound(s.drop_last());
        lemma_pow2_unfold(s.len());
    }
}

/// Converts `bits[start..end]` to the unsigned integer it denotes,
/// most significant bit first.
pub fn bits_to_uint(bits: &[bool], start: usize, end: usize) -> (value: u32)
    requires
        start <= end <= bits@.len(),
        end - start <= 17,
    ensures
        value == uint_of_bits(bits@.subrange(start as int, end as int)),
        value < 131072,
{
    proof {
        lemma2_to64();
    }
    let mut value: u32 = 0;
    let mut i: usize = start;
    while i < end
        invariant
            start <= i <= end <= bits@.len(),
            end - start <= 17,
            value == uint_of_bits(bits@.subrange(start as int, i as int)),
            value < pow2((i - start) as nat),
            pow2(17) == 131072,
        decreases end - i,
    {
        proof {
            assert(bits@.subrange(start as int, i + 1).drop_last() =~= bits@.subrange(
                start as int,
                i as int,
            ));
            vstd::arithmetic::power2::lemma_pow2_strictly_increases((i - start) as nat, 17);
            lemma_pow2_unfold((i + 1 - start) as nat);
        }
        value = 2 * value + (if bits[i] { 1 } else { 0 });
        i = i + 1;
    }
    proof {
        if end - start < 17 {
            vstd::arithmetic::power2::lemma_pow2_strictly_increases((end - start) as nat, 17);
        }
    }
    value
}

/// Whether a byte is an ASCII hexadecimal digit (`0-9`, `a-f`, `A-F`).
pub open spec fn is_hex_digit(c: u8) -> bool {
    (48 <= c <= 57) || (97 <= c <= 102) || (65 <= c <= 70)
}

/// The value of an ASCII hexadecimal digit.
pub open spec fn hex_digit_value(c: u8) -> nat {
    if 48 <= c <= 57 {
        (c - 48) as nat
    } else if 97 <= c <= 102 {
        (c - 87) as nat
    } else if 65 <= c <= 70 {
        (c - 55) as nat
    } else {
        0
    }
}

/// The four bits of a nibble value, most significant first.
pub open spec fn nibble_bits(v: nat) -> Seq<bool> {
    seq![v / 8 % 2 == 1, v / 4 % 2 == 1, v / 2 % 2 == 1, v % 2 == 1]
}

/// The bit string a hex text denotes: four bits per character,
/// big-endian nibble order.
pub open spec fn bits_of_hex(h: Seq<u8>) -> Seq<bool>
    decreases h.len(),
{
    if h.len() == 0 {
        Seq::empty()
    } else {
        bits_of_hex(h.drop_last()) + nibble_bits(hex_digit_value(h.last()))
    }
}

/// Hex text of `n` characters denotes exactly `4 * n` bits.
pub proof fn lemma_bits_of_hex_len(h: Seq<u8>)
    ensures
        bits_of_hex(h).len() == 4 * h.len(),
    decreases h.len(),
{
    if h.len() > 0 {
        lemma_bits_of_hex_len(h.drop_last());
    }
}

/// Converts hex text (as ASCII bytes) to its binary representation, four
/// bits per character; a character that is not a hex digit is a typed
/// per-message failure, never a crash.
pub fn hex_to_bin_repr(hex: &Vec<u8>) -> (result: Result<Vec<bool>, DecodeError>)
    ensures
        match result {
            Ok(bits) => {
                &&& forall|i: int| 0 <= i < hex@.len() ==> is_hex_digit(hex@[i])
                &&& bits@ == bits_of_hex(hex@)
            },
            Err(e) => {
                &&& e == DecodeError::InvalidHexDigit
                &&& exists|i: int| 0 <= i < hex@.len() && !is_hex_digit(hex@[i])
            },
        },
{
    let mut bits: Vec<bool> = Vec::new();
    let mut i: usize = 0;
    while i < hex.len()
        invariant
            0 <= i <= hex@.len(),
            forall|j: int| 0 <= j < i ==> is_hex_digit(hex@[j]),
            bits@ == bits_of_hex(hex@.subrange(0, i as int)),
        decreases hex@.len() - i,
    {
        let c = hex[i];
        let v: u8 = if 48 <= c && c <= 57 {
            c - 48
        } else if 97 <= c && c <= 102 {
            c - 87
        } else if 65 <= c && c <= 70 {
            c - 55
        } else {
            return Err(DecodeError::InvalidHexDigit);
        };
        bits.push(v / 8 % 2 == 1);
        bits.push(v / 4 % 2 == 1);
        bits.push(v / 2 % 2 == 1);
        bits.push(v % 2 == 1);
        proof {
            let pre = hex@.subrange(0, i as int);
            let cur = hex@.subrange(0, i + 1);
            assert(cur.drop_last() =~= pre);
            assert(cur.last() == hex@[i as int]);
            assert(bits@ =~= bits_of_hex(pre) + nibble_bits(hex_digit_value(hex@[i as int])));
        }
        i = i + 1;
    }
    proof {
        assert(hex@.subrange(0, hex@.len() as int) =~= hex@);
    }
    Ok(bits)
}

/// The 32-symbol identification alphabet: index 0-25 are `A`-`Z`,
/// 26-31 are blanks; a 6-bit index past the alphabet maps to `?`.
pub open spec fn ident_char(v: nat) -> char {
    if v < 26 {
        ((65 + v) as u8) as char
    } else if v < 32 {
        ' '
    } else {
        '?'
    }
}

/// The eight raw callsign characters of a 48-bit identification field,
/// one per 6-bit group.
pub open spec fn ident_chars(s: Seq<bool>) -> Seq<char> {
    Seq::new(8, |g: int| ident_char(uint_of_bits(s.subrange(6 * g, 6 * g + 6))))
}

/// A character sequence with its trailing blanks removed.
pub open spec fn trim_trailing_blanks(s: Seq<char>) -> Seq<char>
    decreases s.len(),
{
    if s.len() > 0 && s.last() == ' ' {
        trim_trailing_blanks(s.drop_last())
    } else {
        s
    }
}

/// The callsign a 48-bit identification field denotes: eight 6-bit
/// groups through the alphabet, trailing blanks trimmed.
pub open spec fn callsign_of(s: Seq<bool>) -> Seq<char> {
    trim_trailing_blanks(ident_chars(s))
}

/// Decodes the 48-bit identification field (bits [40,88) of the full
/// message) to the callsign: eight 6-bit groups, each through the
/// 32-symbol alphabet, with trailing blanks trimmed.
pub fn decode_identification(bits: &[bool]) -> (callsign: Vec<char>)
    requires
        bits@.len() == 48,
    ensures
        callsign@ == callsign_of(bits@),
{
    let mut raw: Vec<char> = Vec::new();
    let mut g: usize = 0;
    while g < 8
        invariant
            0 <= g <= 8,
            bits@.len() == 48,
            raw@.len() == g,
            forall|k: int|
                0 <= k < g ==> raw@[k] == ident_char(
                    uint_of_bits(bits@.subrange(6 * k, 6 * k + 6)),
                ),
        decreases 8 - g,
    {
        let v = bits_to_uint(bits, 6 * g, 6 * g + 6);
        let c: char = if v < 26 {
            (65 + v as u8) as char
        } else if v < 32 {
            ' '
        } else {
            '?'
        };
        raw.push(c);
        g = g + 1;
    }
    proof {
        assert(raw@ =~= ident_chars(bits@));
    }
    while raw.len() > 0 && raw[raw.len() - 1] == ' '
        invariant
            trim_trailing_blanks(raw@) == callsign_of(bits@),
        decreases raw@.len(),
    {
        proof {
            assert(raw@.last() == ' ');
        }
        raw.pop();
    }
    raw
}

/// Decodes the 12-bit altitude field (bits [40,52) of the full message):
/// `code * 25 - 1000` feet, exact. With a 12-bit code the product cannot
/// overflow, so a code of zero yields -1000 feet.
pub fn decode_altitude(bits: &[bool]) -> (altitude_ft: i32)
    requires
        bits@.len() == 12,
    ensures
        altitude_ft == uint_of_bits(bits@) * 25 - 1000,
        -1000 <= altitude_ft <= 101375,
{
    proof {
        lemma2_to64();
        lemma_uint_of_bits_bound(bits@);
    }
    let code = bits_to_uint(bits, 0, 12);
    proof {
        assert(bits@.subrange(0, 12) =~= bits@);
    }
    code as i32 * 25 - 1000
}

/// Latitude scaling: `u * 180 / 131072 - 90` degrees, kept exact as
/// degrees times 131072.
pub open spec fn lat_scaled_of(u: nat) -> int {
    u * 180 - 90 * 131072
}

/// Longitude scaling: `u * 360 / 131072 - 180` degrees, kept exact as
/// degrees times 131072.
pub open spec fn lon_scaled_of(u: nat) -> int {
    u * 360 - 180 * 131072
}

/// Decodes the position of a full 112-bit message by the simplified
/// scaling formula: latitude from the 17-bit field at [54,71), longitude
/// from the 17-bit field at [71,88). The results are degrees times
/// 131072 (2^17), which is exact.
pub fn decode_surface_position(bits: &[bool]) -> (position: (i32, i32))
    requires
        bits@.len() == 112,
    ensures
        position.0 == lat_scaled_of(uint_of_bits(bits@.subrange(54, 71))),
        position.1 == lon_scaled_of(uint_of_bits(bits@.subrange(71, 88))),
{
    let lat_u = bits_to_uint(bits, 54, 71);
    let lon_u = bits_to_uint(bits, 71, 88);
    let lat_scaled = lat_u as i32 * 180 - 11796480;
    let lon_scaled = lon_u as i32 * 360 - 23592960;
    (lat_scaled, lon_scaled)
}

/// Decodes the position of an airborne-position message; this receiver
/// applies the same scaling formula as for surface positions.
pub fn decode_airborne_position(bits: &[bool]) -> (position: (i32, i32))
    requires
        bits@.len() == 112,
    ensures
        position.0 == lat_scaled_of(uint_of_bits(bits@.subrange(54, 71))),
        position.1 == lon_scaled_of(uint_of_bits(bits@.subrange(71, 88))),
{
    decode_surface_position(bits)
}

/// Decodes the velocity payload (bits [40,112) of the full message):
/// the 10-bit field at [13,23) of that slice, reported directly as
/// knots.
pub fn decode_velocity(bits: &[bool]) -> (speed_knots: u16)
    requires
        bits@.len() == 72,
    ensures
        speed_knots == uint_of_bits(bits@.subrange(13, 23)),
        speed_knots < 1024,
{
    proof {
        lemma2_to64();
        lemma_uint_of_bits_bound(bits@.subrange(13, 23));
        vstd::arithmetic::power2::lemma_pow2_strictly_increases(10, 17);
    }
    let v = bits_to_uint(bits, 13, 23);
    v as u16
}

/// What a decoded message must hold for a 112-bit string: the variant
/// the type-code table selects, with every field the formulas of that
/// variant give.
pub open spec fn message_matches_bits(s: Seq<bool>, m: DecodedMessage) -> bool {
    let tc = uint_of_bits(s.subrange(32, 37));
    match class_of_type_code(tc as int) {
        MessageClass::Identification => m matches DecodedMessage::Identification {
            type_code,
            category,
            callsign,
        } && type_code == tc && category == uint_of_bits(s.subrange(37, 40)) && callsign@
            == callsign_of(s.subrange(40, 88)),
        MessageClass::SurfacePosition => m matches DecodedMessage::SurfacePosition {
            type_code,
            lat_scaled,
            lon_scaled,
        } && type_code == tc && lat_scaled == lat_scaled_of(uint_of_bits(s.subrange(54, 71)))
            && lon_scaled == lon_scaled_of(uint_of_bits(s.subrange(71, 88))),
        MessageClass::AirbornePosition => m matches DecodedMessage::AirbornePosition {
            type_code,
            altitude_ft,
            lat_scaled,
            lon_scaled,
        } && type_code == tc && altitude_ft == uint_of_bits(s.subrange(40, 52)) * 25 - 1000
            && lat_scaled == lat_scaled_of(uint_of_bits(s.subrange(54, 71))) && lon_scaled
            == lon_scaled_of(uint_of_bits(s.subrange(71, 88))),
        MessageClass::AirborneVelocity => m matches DecodedMessage::AirborneVelocity {
            type_code,
            speed_knots,
        } && type_code == tc && speed_knots == uint_of_bits(s.subrange(40, 112).subrange(13, 23)),
        MessageClass::Reserved => m matches DecodedMessage::Reserved { type_code } && type_code
            == tc,
        MessageClass::Test => m matches DecodedMessage::Test { type_code } && type_code == tc,
        MessageClass::ExtendedSquitter => m matches DecodedMessage::ExtendedSquitter { type_code }
            && type_code == tc,
        MessageClass::Unknown => m matches DecodedMessage::Unknown { type_code } && type_code == tc,
    }
}

/// Decodes a 112-bit string into a structured message. Any other length
/// is the recoverable `InvalidLength` failure, and no field is
/// extracted; a 112-bit input always decodes.
pub fn decode_bits(bits: &Vec<bool>) -> (result: Result<DecodedMessage, DecodeError>)
    ensures
        result is Ok <==> bits@.len() == 112,
        result is Err <==> result == Err::<DecodedMessage, DecodeError>(DecodeError::InvalidLength)
            && bits@.len() != 112,
        result matches Ok(m) ==> message_matches_bits(bits@, m),
{
    if bits.len() != 112 {
        return Err(DecodeError::InvalidLength);
    }
    let s = bits.as_slice();
    let tc_value = bits_to_uint(s, 32, 37);
    proof {
        lemma2_to64();
        lemma_uint_of_bits_bound(bits@.subrange(32, 37));
        vstd::arithmetic::power2::lemma_pow2_strictly_increases(5, 17);
    }
    let type_code = tc_value as u8;
    if 1 <= type_code && type_code <= 4 {
        let category = bits_to_uint(s, 37, 40) as u8;
        proof {
            lemma_uint_of_bits_bound(bits@.subrange(37, 40));
            vstd::arithmetic::power2::lemma_pow2_strictly_increases(3, 17);
        }
        let callsign = decode_identification(slice_subrange(s, 40, 88));
        Ok(DecodedMessage::Identification { type_code, category, callsign })
    } else if 5 <= type_code && type_code <= 8 {
        let (lat_scaled, lon_scaled) = decode_surface_position(s);
        Ok(DecodedMessage::SurfacePosition { type_code, lat_scaled, lon_scaled })
    } else if 9 <= type_code && type_code <= 18 {
        let altitude_ft = decode_altitude(slice_subrange(s, 40, 52));
        let (lat_scaled, lon_scaled) = decode_airborne_position(s);
        Ok(DecodedMessage::AirbornePosition { type_code, altitude_ft, lat_scaled, lon_scaled })
    } else if type_code == 19 {
        let speed_knots = decode_velocity(slice_subrange(s, 40, 112));
        Ok(DecodedMessage::AirborneVelocity { type_code, speed_knots })
    } else if 20 <= type_code && type_code <= 22 {
        Ok(DecodedMessage::Reserved { type_code })
    } else if 23 <= type_code && type_code <= 27 {
        Ok(DecodedMessage::Test { type_code })
    } else if 28 <= type_code && type_code <= 31 {
        Ok(DecodedMessage::ExtendedSquitter { type_code })
    } else {
        Ok(DecodedMessage::Unknown { type_code })
    }
}

/// Decodes one message from its hex text (as ASCII bytes): hex to bits,
/// length validation, then type-code dispatch. A non-digit character and
/// a length other than 28 hex characters (112 bits) are the two typed,
/// recoverable failures; every well-formed input decodes.
pub fn parse(hex: &Vec<u8>) -> (result: Result<DecodedMessage, DecodeError>)
    ensures
        result == Err::<DecodedMessage, DecodeError>(DecodeError::InvalidHexDigit) <==> exists|
            i: int,
        | 0 <= i < hex@.len() && !is_hex_digit(hex@[i]),
        (forall|i: int| 0 <= i < hex@.len() ==> is_hex_digit(hex@[i])) && hex@.len() != 28 ==> result
            == Err::<DecodedMessage, DecodeError>(DecodeError::InvalidLength),
        result is Ok <==> (forall|i: int| 0 <= i < hex@.len() ==> is_hex_digit(hex@[i]))
            && hex@.len() == 28,
        result matches Ok(m) ==> message_matches_bits(bits_of_hex(hex@), m),
{
    let bits = match hex_to_bin_repr(hex) {
        Ok(bits) => bits,
        Err(e) => {
            return Err(e);
        },
    };
    proof {
        lemma_bits_of_hex_len(hex@);
    }
    decode_bits(&bits)
}

} // verus!
