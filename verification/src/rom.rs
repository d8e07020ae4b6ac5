//! The three byte-order encodings, their 4-byte header signatures and
//! canonical filename suffixes, and detection of an encoding from header
//! bytes or from a filename suffix.

use vstd::prelude::*;

verus! {

/// One of the three byte orderings a ROM image can be stored in.
#[derive(Clone, Copy, Debug, PartialEq, Eq, Structural)]
pub enum RomType {
    /// Native order (commonly `.z64`).
    BigEndian,
    /// Bytes swapped within each 16-bit half-word (commonly `.v64`).
    ByteSwap,
    /// Fully reversed 32-bit words (commonly `.n64`).
    LittleEndian,
}

/// The fixed 4-byte signature that opens every image stored in encoding `t`.
pub open spec fn spec_header(t: RomType) -> Seq<u8> {
    match t {
        RomType::BigEndian => seq![0x80u8, 0x37u8, 0x12u8, 0x40u8],
        RomType::ByteSwap => seq![0x37u8, 0x80u8, 0x40u8, 0x12u8],
        RomType::LittleEndian => seq![0x40u8, 0x12u8, 0x37u8, 0x80u8],
    }
}

/// The canonical filename suffix for encoding `t`, as characters.
pub open spec fn spec_ext(t: RomType) -> Seq<char> {
    match t {
        RomType::BigEndian => seq!['.', 'z', '6', '4'],
        RomType::ByteSwap => seq!['.', 'v', '6', '4'],
        RomType::LittleEndian => seq!['.', 'n', '6', '4'],
    }
}

/// The encoding whose signature `h` is, if any: exact, byte-for-byte match.
pub open spec fn spec_identify(h: Seq<u8>) -> Option<RomType> {
    if h == spec_header(RomType::BigEndian) {
        Some(RomType::BigEndian)
    } else if h == spec_header(RomType::ByteSwap) {
        Some(RomType::ByteSwap)
    } else if h == spec_header(RomType::LittleEndian) {
        Some(RomType::LittleEndian)
    } else {
        None
    }
}

/// Classification is exact: the canonical signature of each encoding is
/// identified as that encoding, so the three signatures are pairwise
/// distinct.
pub proof fn lemma_identify_signature(t: RomType)
    ensures
        spec_identify(spec_header(t)) == Some(t),
{
}

/// Suffix lookup is exact on the canonical suffixes: each encoding's own
/// suffix maps back to that encoding.
pub proof fn lemma_guess_canonical_ext(t: RomType)
    ensures
        spec_guess(spec_ext(t)) == Some(t),
{
}

impl RomType {
    /// The canonical filename suffix for this encoding.
    pub fn get_file_ext(&self) -> (r: &'static str)
        ensures
            r@ == spec_ext(*self),
    {
        proof {
            reveal_strlit(".z64");
            reveal_strlit(".v64");
            reveal_strlit(".n64");
        }
        let r = match *self {
            RomType::BigEndian => ".z64",
            RomType::ByteSwap => ".v64",
            RomType::LittleEndian => ".n64",
        };
        proof {
            assert(r@ =~= spec_ext(*self));
        }
        r
    }

    /// The fixed 4-byte header signature for this encoding.
    pub fn get_header_bytes(&self) -> (r: [u8; 4])
        ensures
            r@ == spec_header(*self),
    {
        let r: [u8; 4] = match *self {
            RomType::BigEndian => [0x80, 0x37, 0x12, 0x40],
            RomType::ByteSwap => [0x37, 0x80, 0x40, 0x12],
            RomType::LittleEndian => [0x40, 0x12, 0x37, 0x80],
        };
        proof {
            assert(r@ =~= spec_header(*self));
        }
        r
    }
}

/// Classifies a 4-byte header: the encoding whose signature it is, or `None`
/// for every other value, which signals an unrecognized format.
pub fn identify_header(bytes: &[u8; 4]) -> (r: Option<RomType>)
    ensures
        r == spec_identify(bytes@),
{
    if bytes[0] == 0x80 && bytes[1] == 0x37 && bytes[2] == 0x12 && bytes[3] == 0x40 {
        proof {
            assert(bytes@ =~= spec_header(RomType::BigEndian));
        }
        Some(RomType::BigEndian)
    } else if bytes[0] == 0x37 && bytes[1] == 0x80 && bytes[2] == 0x40 && bytes[3] == 0x12 {
        proof {
            assert(bytes@ =~= spec_header(RomType::ByteSwap));
        }
        Some(RomType::ByteSwap)
    } else if bytes[0] == 0x40 && bytes[1] == 0x12 && bytes[2] == 0x37 && bytes[3] == 0x80 {
        proof {
            assert(bytes@ =~= spec_header(RomType::LittleEndian));
        }
        Some(RomType::LittleEndian)
    } else {
        None
    }
}

/// Case-insensitive lookup of a filename suffix against the three canonical
/// suffixes; only the letter varies by case, the dot and digits are exact.
pub open spec fn spec_guess(s: Seq<char>) -> Option<RomType> {
    if s.len() == 4 && s[0] == '.' && (s[1] == 'z' || s[1] == 'Z') && s[2] == '6' && s[3] == '4' {
        Some(RomType::BigEndian)
    } else if s.len() == 4 && s[0] == '.' && (s[1] == 'v' || s[1] == 'V') && s[2] == '6' && s[3]
        == '4' {
        Some(RomType::ByteSwap)
    } else if s.len() == 4 && s[0] == '.' && (s[1] == 'n' || s[1] == 'N') && s[2] == '6' && s[3]
        == '4' {
        Some(RomType::LittleEndian)
    } else {
        None
    }
}

/// Maps a filename suffix to an encoding by case-insensitive comparison with
/// the canonical suffixes; any other suffix yields `None`.
pub fn guess_type(ext: &str) -> (r: Option<RomType>)
    ensures
        r == spec_guess(ext@),
{
    if ext.unicode_len() != 4 {
        return None;
    }
    let c0 = ext.get_char(0);
    let c1 = ext.get_char(1);
    let c2 = ext.get_char(2);
    let c3 = ext.get_char(3);
    if c0 == '.' && (c1 == 'z' || c1 == 'Z') && c2 == '6' && c3 == '4' {
        Some(RomType::BigEndian)
    } else if c0 == '.' && (c1 == 'v' || c1 == 'V') && c2 == '6' && c3 == '4' {
        Some(RomType::ByteSwap)
    } else if c0 == '.' && (c1 == 'n' || c1 == 'N') && c2 == '6' && c3 == '4' {
        Some(RomType::LittleEndian)
    } else {
        None
    }
}

} // verus!
