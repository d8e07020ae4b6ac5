//! The word-level transform: a byte-index permutation over 4-byte words,
//! selected by the unordered pair of source and destination encoding.
//!
//! Each pair of distinct encodings is related by two disjoint transpositions,
//! so every transform is its own inverse, and the three transforms together
//! with the identity form a group closed under composition.

use vstd::prelude::*;

use crate::rom::RomType;

verus! {

/// Whether `{a, b}` is the unordered pair `{x, y}`.
pub open spec fn is_pair(a: RomType, b: RomType, x: RomType, y: RomType) -> bool {
    (a == x && b == y) || (a == y && b == x)
}

/// The byte index that position `j` of a word draws from when converting from
/// `src` to `dst`:
/// `{BigEndian, ByteSwap}` swaps within each half-word, `{BigEndian,
/// LittleEndian}` reverses the word, `{ByteSwap, LittleEndian}` swaps the two
/// half-words, and equal encodings leave the word unchanged.
pub open spec fn perm_index(src: RomType, dst: RomType, j: int) -> int {
    if src == dst {
        j
    } else if is_pair(src, dst, RomType::BigEndian, RomType::ByteSwap) {
        if j == 0 {
            1
        } else if j == 1 {
            0
        } else if j == 2 {
            3
        } else {
            2
        }
    } else if is_pair(src, dst, RomType::BigEndian, RomType::LittleEndian) {
        3 - j
    } else {
        // {ByteSwap, LittleEndian}
        if j < 2 {
            j + 2
        } else {
            j - 2
        }
    }
}

/// A 4-byte word `w` rewritten from encoding `src` to encoding `dst`.
pub open spec fn spec_swap(w: Seq<u8>, src: RomType, dst: RomType) -> Seq<u8> {
    Seq::new(4, |j: int| w[perm_index(src, dst, j)])
}

/// Rewrites one 4-byte word in place from encoding `src_type` to encoding
/// `dst_type`. Equal encodings are a legitimate input and leave the word
/// unchanged.
pub fn swapper(bytes: &mut [u8; 4], src_type: RomType, dst_type: RomType)
    ensures
        final(bytes)@ == spec_swap(old(bytes)@, src_type, dst_type),
{
    let b0 = bytes[0];
    let b1 = bytes[1];
    let b2 = bytes[2];
    let b3 = bytes[3];
    match (src_type, dst_type) {
        (RomType::BigEndian, RomType::ByteSwap) | (RomType::ByteSwap, RomType::BigEndian) => {
            *bytes = [b1, b0, b3, b2];
        },
        (RomType::BigEndian, RomType::LittleEndian) | (
            RomType::LittleEndian,
            RomType::BigEndian,
        ) => {
            *bytes = [b3, b2, b1, b0];
        },
        (RomType::ByteSwap, RomType::LittleEndian) | (
            RomType::LittleEndian,
            RomType::ByteSwap,
        ) => {
            *bytes = [b2, b3, b0, b1];
        },
        _ => {},
    }
    proof {
        assert(bytes@ =~= spec_swap(old(bytes)@, src_type, dst_type));
    }
}

/// Converting a word from an encoding to itself leaves it unchanged.
pub proof fn lemma_swap_identity(w: Seq<u8>, a: RomType)
    requires
        w.len() == 4,
    ensures
        spec_swap(w, a, a) == w,
{
    assert(spec_swap(w, a, a) =~= w);
}

/// Every transform is its own inverse: converting from `a` to `b` and then
/// from `b` back to `a` restores the original word.
pub proof fn lemma_swap_self_inverse(w: Seq<u8>, a: RomType, b: RomType)
    requires
        w.len() == 4,
    ensures
        spec_swap(spec_swap(w, a, b), b, a) == w,
{
    assert(spec_swap(spec_swap(w, a, b), b, a) =~= w);
}

/// Group closure: for pairwise distinct encodings, converting from `a` to `b`
/// and then from `b` to `c` equals converting from `a` to `c` directly.
pub proof fn lemma_swap_compose(w: Seq<u8>, a: RomType, b: RomType, c: RomType)
    requires
        w.len() == 4,
        a != b,
        b != c,
        a != c,
    ensures
        spec_swap(spec_swap(w, a, b), b, c) == spec_swap(w, a, c),
{
    assert(spec_swap(spec_swap(w, a, b), b, c) =~= spec_swap(w, a, c));
}

} // verus!
