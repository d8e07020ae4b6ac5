//! Filename handling: extracting the suffix from the last `.` of a filename,
//! and deriving a default output filename for a chosen encoding.

use vstd::prelude::*;

use crate::rom::RomType;
use crate::rom::spec_ext;

verus! {

/// The index of the last `.` in `s`, if any.
pub open spec fn spec_rfind_dot(s: Seq<char>) -> Option<int>
    decreases s.len(),
{
    if s.len() == 0 {
        None
    } else if s[s.len() - 1] == '.' {
        Some(s.len() - 1)
    } else {
        spec_rfind_dot(s.take(s.len() - 1))
    }
}

/// The suffix of `s` from its last `.` to its end, or `None` when `s` has no
/// `.` at all. A name whose only `.` is its first character yields the whole
/// name as the suffix.
pub open spec fn spec_detect_ext(s: Seq<char>) -> Option<Seq<char>> {
    match spec_rfind_dot(s) {
        Some(i) => Some(s.subrange(i, s.len() as int)),
        None => None,
    }
}

/// `spec_rfind_dot` finds exactly the last dot: a dot at `i` with none after
/// it is the answer.
pub proof fn lemma_rfind_dot_some(s: Seq<char>, i: int)
    requires
        0 <= i < s.len(),
        s[i] == '.',
        forall|j: int| i < j < s.len() ==> s[j] != '.',
    ensures
        spec_rfind_dot(s) == Some(i),
    decreases s.len(),
{
    if i == s.len() - 1 {
    } else {
        lemma_rfind_dot_some(s.take(s.len() - 1), i);
    }
}

/// `spec_rfind_dot` reports `None` exactly on dot-free strings.
pub proof fn lemma_rfind_dot_none(s: Seq<char>)
    requires
        forall|j: int| 0 <= j < s.len() ==> s[j] != '.',
    ensures
        spec_rfind_dot(s) is None,
    decreases s.len(),
{
    if s.len() > 0 {
        lemma_rfind_dot_none(s.take(s.len() - 1));
    }
}

/// Extracts the suffix of `filename` from its last `.` to its end; `None`
/// when the name contains no `.`.
pub fn detect_ext(filename: &str) -> (r: Option<&str>)
    ensures
        r is Some <==> spec_detect_ext(filename@) is Some,
        r matches Some(e) ==> spec_detect_ext(filename@) matches Some(v) && e@ == v,
{
    let len = filename.unicode_len();
    let mut i = len;
    while i > 0
        invariant
            i <= len,
            len == filename@.len(),
            forall|j: int| i <= j < len ==> filename@[j] != '.',
        decreases i,
    {
        i = i - 1;
        if filename.get_char(i) == '.' {
            proof {
                lemma_rfind_dot_some(filename@, i as int);
            }
            return Some(filename.substring_char(i, len));
        }
    }
    proof {
        lemma_rfind_dot_none(filename@);
    }
    None
}

/// The default output filename: `filename` with a 3-character suffix (a `.`
/// four characters from the end) replaced by the canonical suffix of `t`, or
/// with that suffix appended when there is no such `.`.
pub open spec fn spec_default_output_name(s: Seq<char>, t: RomType) -> Seq<char> {
    if s.len() >= 4 && s[s.len() - 4] == '.' {
        s.take(s.len() - 4) + spec_ext(t)
    } else {
        s + spec_ext(t)
    }
}

/// Derives the output filename used when none was given: the input filename,
/// with its 3-character suffix (if it has one) replaced by the canonical
/// suffix of the destination encoding `t`.
pub fn default_output_name(filename: &str, t: RomType) -> (r: String)
    ensures
        r@ == spec_default_output_name(filename@, t),
{
    let len = filename.unicode_len();
    let ext = t.get_file_ext();
    if len >= 4 && filename.get_char(len - 4) == '.' {
        let stem = filename.substring_char(0, len - 4);
        let mut r = String::from_str(stem);
        r.append(ext);
        r
    } else {
        let mut r = String::from_str(filename);
        r.append(ext);
        r
    }
}

} // verus!
