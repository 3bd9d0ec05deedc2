//! Symbol demangling, with the legacy hash-suffix cleanup.
//!
//! The base transform comes from an outside demangler and is only named
//! here; the cleanup of the trailing `::` + 17-character hash that legacy
//! mangling leaves behind is verified exactly.

use vstd::prelude::*;

verus! {

/// The readable form the outside demangler gives to a raw identifier.
/// It depends on the identifier's characters alone.
pub uninterp spec fn demangled_of(s: Seq<char>) -> Seq<char>;

/// Relies on `rustc_demangle::demangle`: the readable form of a mangled
/// identifier, a pure function of its characters (an unmangled input is
/// passed through unchanged).
#[verifier::external_body]
fn demangle_raw(function: &str) -> (r: String)
    ensures
        r@ == demangled_of(function@),
{
    rustc_demangle::demangle(function).to_string()
}

/// A lowercase alphanumeric character: what the 17 characters of a legacy
/// mangling hash are drawn from.
pub open spec fn is_hash_char(c: char) -> bool {
    (('a' as u32) <= (c as u32) && (c as u32) <= ('z' as u32)) || (('0' as u32) <= (c as u32) && (c
        as u32) <= ('9' as u32))
}

/// Whether `s` ends in `::` followed by exactly 17 lowercase alphanumeric
/// characters: the legacy hash artifact.
pub open spec fn has_hash_suffix(s: Seq<char>) -> bool {
    &&& s.len() >= 19
    &&& s[s.len() - 19] == ':'
    &&& s[s.len() - 18] == ':'
    &&& forall|i: int| s.len() - 17 <= i < s.len() ==> is_hash_char(#[trigger] s[i])
}

/// `s` with the legacy hash suffix removed when it carries one, and
/// unchanged otherwise.
pub open spec fn strip_hash_spec(s: Seq<char>) -> Seq<char> {
    if has_hash_suffix(s) {
        s.take(s.len() - 19)
    } else {
        s
    }
}

/// The full demangling transform: the outside demangler's output with the
/// legacy hash suffix stripped.
pub open spec fn demangle_spec(s: Seq<char>) -> Seq<char> {
    strip_hash_spec(demangled_of(s))
}

/// Removes a trailing `::` + 17-character lowercase alphanumeric hash, and
/// returns every other string as it came.
pub fn strip_legacy_hash(demangled: String) -> (r: String)
    ensures
        r@ == strip_hash_spec(demangled@),
{
    let s = demangled.as_str();
    let n = s.unicode_len();
    if n < 19 {
        return demangled;
    }
    if s.get_char(n - 19) != ':' || s.get_char(n - 18) != ':' {
        return demangled;
    }
    let mut i: usize = n - 17;
    while i < n
        invariant
            n == demangled@.len(),
            s@ == demangled@,
            n >= 19,
            n - 17 <= i <= n,
            forall|k: int| n - 17 <= k < i ==> is_hash_char(#[trigger] s@[k]),
        decreases n - i,
    {
        let c = s.get_char(i);
        let cu = c as u32;
        if !((97 <= cu && cu <= 122) || (48 <= cu && cu <= 57)) {
            assert(!is_hash_char(s@[i as int]));
            return demangled;
        }
        i = i + 1;
    }
    assert(has_hash_suffix(demangled@));
    let stripped = s.substring_char(0, n - 19);
    String::from_str(stripped)
}

/// Turns a raw, possibly-mangled identifier into its readable form and
/// strips the legacy hash artifact from the result.
pub fn demangle(function: &str) -> (r: String)
    ensures
        r@ == demangle_spec(function@),
{
    let demangled = demangle_raw(function);
    strip_legacy_hash(demangled)
}

} // verus!
