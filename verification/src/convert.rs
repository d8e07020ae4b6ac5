//! The stream converter: classifies the 4-byte header of an image, resolves
//! the destination encoding, and rewrites the stream — a fresh canonical
//! header followed by every full 4-byte body word run through the swap
//! transform. Trailing bytes that do not form a full word are dropped.

use vstd::prelude::*;

use crate::ext::detect_ext;
use crate::ext::spec_detect_ext;
use crate::rom::RomType;
use crate::rom::guess_type;
use crate::rom::identify_header;
use crate::rom::spec_guess;
use crate::rom::spec_header;
use crate::rom::spec_identify;
use crate::swap::perm_index;
use crate::swap::spec_swap;
use crate::swap::swapper;

verus! {

/// The outcome of one conversion run. `AlreadyTargetFormat` is a successful
/// no-op, not an error: the image was already in the requested encoding and
/// no output is produced.
pub enum Outcome {
    /// The rewritten stream: new header plus converted body.
    Converted(Vec<u8>),
    /// The input is already in the requested encoding; nothing to do.
    AlreadyTargetFormat(RomType),
    /// The header matches none of the three known signatures.
    UnrecognizedFormat,
    /// Fewer than 4 bytes were available where a full header was required.
    TruncatedInput,
}

/// The length of the converted body of an `n`-byte input: the body past the
/// 4-byte header, rounded down to a multiple of 4.
pub open spec fn spec_body_len(n: int) -> int {
    if n < 4 {
        0
    } else {
        ((n - 4) / 4) * 4
    }
}

/// The converted body of input `d`: every full 4-byte word past the header,
/// rewritten from encoding `src` to encoding `dst`; trailing bytes that do
/// not form a full word are dropped.
pub open spec fn spec_body(d: Seq<u8>, src: RomType, dst: RomType) -> Seq<u8> {
    Seq::new(
        spec_body_len(d.len() as int) as nat,
        |k: int| d[4 + (k / 4) * 4 + perm_index(src, dst, k % 4)],
    )
}

/// The full converted stream: the destination's canonical signature (the
/// original header bytes are discarded, not transformed), then the converted
/// body.
pub open spec fn spec_convert(d: Seq<u8>, src: RomType, dst: RomType) -> Seq<u8> {
    spec_header(dst) + spec_body(d, src, dst)
}

/// The destination encoding inferred from an output filename: the encoding of
/// its suffix, or `BigEndian` when the name has no suffix or an unknown one.
pub open spec fn spec_resolve_name(s: Seq<char>) -> RomType {
    match spec_detect_ext(s) {
        Some(e) => match spec_guess(e) {
            Some(t) => t,
            None => RomType::BigEndian,
        },
        None => RomType::BigEndian,
    }
}

/// Resolves the destination encoding as a priority chain: an explicit request
/// wins, else the output filename's suffix decides, else `BigEndian`.
pub fn resolve_dest(requested: Option<RomType>, dest_filename: Option<&str>) -> (r: RomType)
    ensures
        requested matches Some(t) ==> r == t,
        requested is None ==> (dest_filename matches Some(n) ==> r == spec_resolve_name(n@)),
        requested is None && dest_filename is None ==> r == RomType::BigEndian,
{
    match requested {
        Some(t) => t,
        None => match dest_filename {
            Some(name) => match detect_ext(name) {
                Some(e) => match guess_type(e) {
                    Some(t) => t,
                    None => RomType::BigEndian,
                },
                None => RomType::BigEndian,
            },
            None => RomType::BigEndian,
        },
    }
}

/// What `convert` returns on input `d` with requested encoding `dst`: too
/// short an input is `TruncatedInput`, an unknown header
/// `UnrecognizedFormat`, an input already in encoding `dst`
/// `AlreadyTargetFormat`; every other input converts to `spec_convert`.
pub open spec fn convert_post(d: Seq<u8>, dst: RomType, r: Outcome) -> bool {
    if d.len() < 4 {
        r is TruncatedInput
    } else {
        match spec_identify(d.subrange(0, 4)) {
            None => r is UnrecognizedFormat,
            Some(src) => if src == dst {
                r == Outcome::AlreadyTargetFormat(dst)
            } else {
                r matches Outcome::Converted(out) && out@ == spec_convert(d, src, dst)
            },
        }
    }
}

/// Converts a whole input stream to encoding `dst`.
///
/// The first 4 bytes must be one of the three known signatures; the body is
/// rewritten word by word, and trailing bytes short of a full word are
/// dropped. An input already in encoding `dst` yields
/// `AlreadyTargetFormat`, too short an input `TruncatedInput`, an unknown
/// header `UnrecognizedFormat`; every other input converts.
pub fn convert(data: &[u8], dst: RomType) -> (r: Outcome)
    ensures
        convert_post(data@, dst, r),
{
    if data.len() < 4 {
        return Outcome::TruncatedInput;
    }
    let header: [u8; 4] = [data[0], data[1], data[2], data[3]];
    proof {
        assert(header@ =~= data@.subrange(0, 4));
    }
    let src = match identify_header(&header) {
        Some(t) => t,
        None => { return Outcome::UnrecognizedFormat },
    };
    if src == dst {
        return Outcome::AlreadyTargetFormat(src);
    }
    let mut out: Vec<u8> = Vec::new();
    let hdr = dst.get_header_bytes();
    out.push(hdr[0]);
    out.push(hdr[1]);
    out.push(hdr[2]);
    out.push(hdr[3]);
    proof {
        assert(spec_body_len(data@.len() as int) >= 0);
        assert(out@ =~= spec_convert(data@, src, dst).take(4));
    }
    let mut i: usize = 4;
    while i <= data.len() - 4
        invariant
            data@.len() >= 4,
            4 <= i <= data@.len(),
            i % 4 == 0,
            i <= 4 + spec_body_len(data@.len() as int),
            out@ == spec_convert(data@, src, dst).take(i as int),
        decreases data@.len() - i,
    {
        let mut w: [u8; 4] = [data[i], data[i + 1], data[i + 2], data[i + 3]];
        swapper(&mut w, src, dst);
        out.push(w[0]);
        out.push(w[1]);
        out.push(w[2]);
        out.push(w[3]);
        proof {
            assert(i as int <= spec_body_len(data@.len() as int)) by {
                assert((i - 4) % 4 == 0);
                assert(i - 4 <= data@.len() - 4);
            };
            assert forall|p: int| 0 <= p < i + 4 implies out@[p] == spec_convert(
                data@,
                src,
                dst,
            )[p] by {
                if p >= i {
                    let k = p - 4;
                    assert((k / 4) * 4 == i - 4);
                    assert(k % 4 == p - i);
                }
            }
            assert(out@ =~= spec_convert(data@, src, dst).take(i as int + 4));
        }
        i = i + 4;
    }
    proof {
        assert(i == 4 + spec_body_len(data@.len() as int)) by {
            assert((i - 4) % 4 == 0);
            assert(data@.len() - 4 < i);
        };
        assert(out@ =~= spec_convert(data@, src, dst));
    }
    Outcome::Converted(out)
}

/// Round trip: a well-formed, word-aligned image converted from its own
/// encoding `a` to any encoding `b` and back to `a` is reproduced exactly,
/// header and body.
pub proof fn lemma_convert_round_trip(d: Seq<u8>, a: RomType, b: RomType)
    requires
        d.len() >= 4,
        d.len() % 4 == 0,
        d.subrange(0, 4) == spec_header(a),
    ensures
        spec_convert(spec_convert(d, a, b), b, a) == d,
{
    let e = spec_convert(d, a, b);
    assert(e.len() == d.len());
    assert forall|p: int| 0 <= p < d.len() implies spec_convert(e, b, a)[p] == d[p] by {
        if p < 4 {
            assert(spec_convert(e, b, a)[p] == spec_header(a)[p]);
            assert(d.subrange(0, 4)[p] == d[p]);
        } else {
            let k = p - 4;
            let q = perm_index(b, a, k % 4);
            assert(0 <= q < 4);
            let k2 = (k / 4) * 4 + q;
            assert(spec_convert(e, b, a)[p] == e[4 + k2]);
            assert(k2 / 4 == k / 4 && k2 % 4 == q);
            assert(e[4 + k2] == d[4 + (k / 4) * 4 + perm_index(a, b, q)]);
            assert(perm_index(a, b, perm_index(b, a, k % 4)) == k % 4);
            assert(d[4 + (k / 4) * 4 + k % 4] == d[p]);
        }
    }
    assert(spec_convert(e, b, a) =~= d);
}

} // verus!
