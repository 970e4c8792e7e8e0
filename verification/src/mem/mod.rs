//! Memory helpers: byte-signature search in a dumped memory region, and the
//! bookkeeping of the target process.
pub mod process;
pub mod signature;

use crate::mem::signature::{
    is_first_match, matches_at, parse_signature, pattern_signature, signature_pattern,
    signature_to_pattern, lemma_signature_pattern_denotes,
};
use vstd::prelude::*;

verus! {

/// `regex::bytes::Regex`, the compiled byte regex of the `regex` crate;
/// opaque to the proofs.
#[verifier::external_type_specification]
#[verifier::external_body]
pub struct ExRegex(regex::bytes::Regex);

/// A compiled byte regex together with the pattern it was compiled from.
///
/// Its fields are private and only `compile_regex` builds one, so `regex`
/// is always the compilation of `pattern`.
pub struct SignatureRegex {
    pattern: String,
    regex: regex::bytes::Regex,
}

impl View for SignatureRegex {
    type V = Seq<char>;

    /// The pattern the regex was compiled from.
    closed spec fn view(&self) -> Seq<char> {
        self.pattern@
    }
}

/// Whether `regex::bytes::Regex::new` accepts `pattern` (it refuses invalid
/// patterns and ones over its default size limit).
pub uninterp spec fn regex_compiles(pattern: Seq<char>) -> bool;

/// The span (start and end offsets) of the match that
/// `regex::bytes::Regex::find` reports for the regex compiled from `pattern`
/// in `haystack`.
pub uninterp spec fn regex_find_span(pattern: Seq<char>, haystack: Seq<u8>) -> Option<
    (usize, usize),
>;

/// Calls `regex::bytes::Regex::new` on `pattern`.
///
/// Trusted: the result is present exactly when the crate compiles the
/// pattern (`regex_compiles`), and then remembers the pattern.
#[verifier::external_body]
fn compile_regex(pattern: String) -> (r: Option<SignatureRegex>)
    ensures
        r is Some <==> regex_compiles(pattern@),
        r matches Some(re) ==> re@ == pattern@,
{
    match regex::bytes::Regex::new(&pattern) {
        Ok(regex) => Some(SignatureRegex { pattern, regex }),
        Err(_) => None,
    }
}

/// Calls `regex::bytes::Regex::find` and returns `Match::start` and
/// `Match::end` of the match.
///
/// Trusted: the result is `regex_find_span` of the pattern and the haystack;
/// a match lies within the haystack, its start not after its end. For a
/// pattern of the form `(?s-u)` followed by `.` and `\xHH` atoms, the crate's
/// documentation (`s`: `.` matches any byte, `-u`: `\xHH` is the raw byte,
/// searches report the leftmost match) gives the first offset where the
/// denoted byte signature occurs, a match of one byte per atom, or no match
/// when the signature occurs nowhere.
#[verifier::external_body]
fn regex_find(re: &SignatureRegex, haystack: &[u8]) -> (r: Option<(usize, usize)>)
    ensures
        r == regex_find_span(re@, haystack@),
        r matches Some(m) ==> m.0 <= m.1 <= haystack@.len(),
        pattern_signature(re@) matches Some(sig) ==> {
            &&& r matches Some(m) ==> is_first_match(sig, haystack@, m.0 as int) && m.1 == m.0
                + sig.len()
            &&& r is None ==> forall|k: int| !matches_at(sig, haystack@, k)
        },
{
    re.regex.find(haystack).map(|m| (m.start(), m.end()))
}

/// Calls `regex::bytes::Regex::is_match`.
///
/// Trusted: as documented, it is true exactly when there is a match anywhere
/// in the haystack, that is, when `find` reports one; for a pattern of the
/// form `(?s-u)` followed by `.` and `\xHH` atoms, exactly when the denoted
/// byte signature occurs somewhere.
#[verifier::external_body]
fn regex_is_match(re: &SignatureRegex, haystack: &[u8]) -> (b: bool)
    ensures
        b == regex_find_span(re@, haystack@) is Some,
        pattern_signature(re@) matches Some(sig) ==> (b <==> exists|k: int|
            matches_at(sig, haystack@, k)),
{
    re.regex.is_match(haystack)
}

impl SignatureRegex {
    /// The pattern the regex was compiled from.
    pub fn as_str(&self) -> (s: &str)
        ensures
            s@ == self@,
    {
        self.pattern.as_str()
    }

    /// The first match in `haystack`, as start and end offsets. For a regex
    /// generated from a well-formed signature: the first offset where the
    /// signature occurs, spanning one byte per token.
    pub fn find(&self, haystack: &[u8]) -> (r: Option<(usize, usize)>)
        ensures
            r == regex_find_span(self@, haystack@),
            r matches Some(m) ==> m.0 <= m.1 <= haystack@.len(),
            pattern_signature(self@) matches Some(sig) ==> {
                &&& r matches Some(m) ==> is_first_match(sig, haystack@, m.0 as int) && m.1
                    == m.0 + sig.len()
                &&& r is None ==> forall|k: int| !matches_at(sig, haystack@, k)
            },
    {
        regex_find(self, haystack)
    }

    /// Whether the regex matches anywhere in `haystack`. For a regex
    /// generated from a well-formed signature: whether the signature occurs.
    pub fn is_match(&self, haystack: &[u8]) -> (b: bool)
        ensures
            b == regex_find_span(self@, haystack@) is Some,
            pattern_signature(self@) matches Some(sig) ==> (b <==> exists|k: int|
                matches_at(sig, haystack@, k)),
    {
        regex_is_match(self, haystack)
    }
}

/// Enables the user to generate a byte regex out of the normal signature
/// format: whitespace-separated tokens, each `?` (any byte) or the two hex
/// digits of a byte. The regex of a well-formed signature matches exactly
/// that signature (see `SignatureRegex::find` and `is_match`).
pub fn generate_regex(raw: &str) -> (r: Option<SignatureRegex>)
    ensures
        r is Some <==> regex_compiles(signature_pattern(raw@)),
        r matches Some(re) ==> re@ == signature_pattern(raw@),
        r matches Some(re) ==> (parse_signature(raw@) matches Some(sig) ==> pattern_signature(
            re@,
        ) == Some(sig)),
{
    proof {
        if parse_signature(raw@) is Some {
            lemma_signature_pattern_denotes(raw@);
        }
    }
    let pattern = signature_to_pattern(raw);
    compile_regex(pattern)
}

/// Find pattern: the offset of the first occurrence in `data` of the
/// signature `pattern`, or `None`.
pub fn find_pattern(data: &[u8], pattern: &str) -> (r: Option<usize>)
    ensures
        r == (if regex_compiles(signature_pattern(pattern@)) {
            match regex_find_span(signature_pattern(pattern@), data@) {
                Some(m) => Some(m.0),
                None => None,
            }
        } else {
            None
        }),
        r matches Some(i) ==> i <= data@.len(),
        regex_compiles(signature_pattern(pattern@)) ==> (parse_signature(pattern@) matches Some(
            sig,
        ) ==> {
            &&& r matches Some(i) ==> is_first_match(sig, data@, i as int)
            &&& r is None ==> forall|k: int| !matches_at(sig, data@, k)
        }),
{
    match generate_regex(pattern) {
        Some(re) => match re.find(data) {
            Some(m) => Some(m.0),
            None => None,
        },
        None => None,
    }
}

/// Types with a blank value to be filled in by a query.
pub trait Constructor: Sized {
    fn new() -> Self;
}

} // verus!
