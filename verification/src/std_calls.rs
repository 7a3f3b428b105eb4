//! The few calls into `core` and `alloc` that the library relies on, each
//! with the contract that its documentation gives.
use std::sync::Arc;
use vstd::prelude::*;

use crate::cstr8::{is_longest_valid_prefix, CStr8, Utf8Error};

verus! {

/// What `core::str::Utf8Error::error_len` gives for the error that
/// `core::str::from_utf8` reports on `bytes`: the length of the invalid
/// sequence at `valid_up_to`, or `None` when the input ends inside a sequence.
pub uninterp spec fn utf8_error_len(bytes: Seq<u8>) -> Option<usize>;

/// `core::str::from_utf8`: succeeds exactly on well-formed UTF-8, and the
/// string it returns is the input bytes read as text. On failure its
/// `Utf8Error` is carried over field by field: `valid_up_to` is the longest
/// prefix that is well-formed UTF-8 (std documents it as the maximum index
/// whose prefix `from_utf8` accepts), and `error_len`, when present, is the
/// positive length of an invalid sequence that starts there.
#[verifier::external_body]
pub(crate) fn str_from_utf8(bytes: &[u8]) -> (r: Result<&str, Utf8Error>)
    ensures
        r is Ok <==> vstd::utf8::valid_utf8(bytes@),
        r matches Ok(s) ==> vstd::utf8::encode_utf8(s@) == bytes@,
        r matches Err(e) ==> {
            &&& is_longest_valid_prefix(bytes@, e.valid_up_to as int)
            &&& e.error_len == utf8_error_len(bytes@)
            &&& e.error_len matches Some(n) ==> 1 <= n && e.valid_up_to + n <= bytes@.len()
        },
{
    match core::str::from_utf8(bytes) {
        Ok(s) => Ok(s),
        Err(e) => Err(Utf8Error { valid_up_to: e.valid_up_to(), error_len: e.error_len() }),
    }
}

/// What `format!("{:?}", s)` gives for a string with characters `chars`:
/// the text quoted, with escapes.
pub uninterp spec fn str_debug(chars: Seq<char>) -> Seq<char>;

/// `<str as Debug>::fmt`, through `format!`: the debug form of `s`.
#[verifier::external_body]
pub(crate) fn str_debug_string(s: &str) -> (r: String)
    ensures
        r@ == str_debug(s@),
{
    format!("{:?}", s)
}

/// `Arc::clone`: a second handle to the same allocation, so it holds the
/// same value.
#[verifier::external_body]
pub(crate) fn arc_clone(a: &Arc<CStr8>) -> (r: Arc<CStr8>)
    ensures
        r == *a,
{
    Arc::clone(a)
}

/// `<str as Hash>::hash`: feeds the string into `state`. Nothing is promised
/// of the hasher's state afterwards.
#[verifier::external_body]
pub(crate) fn hash_str<H: core::hash::Hasher>(s: &str, state: &mut H) {
    core::hash::Hash::hash(s, state)
}

} // verus!
