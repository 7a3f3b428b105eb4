//! `CStr8`: text that is valid UTF-8, holds no NUL byte, and is stored
//! followed by exactly one NUL terminator; `CString8`, its owned builder
//! from `&str`; and the errors of both.
use core::cmp::Ordering;
use vstd::prelude::*;

use crate::order::{bytes_equal, compare_bytes, lex_order, std_ordering, to_std_ordering};
use crate::std_calls::{hash_str, str_from_utf8, utf8_error_len};

verus! {

/// No byte of `s` is NUL.
pub open spec fn nul_free(s: Seq<u8>) -> bool {
    forall|i: int| 0 <= i < s.len() ==> s[i] != 0
}

/// `s` may stand before the terminator of a `CStr8`: well-formed UTF-8
/// with no NUL byte.
pub open spec fn is_cstr8_text(s: Seq<u8>) -> bool {
    vstd::utf8::valid_utf8(s) && nul_free(s)
}

/// The UTF-8 bytes of a character sequence (what `str::as_bytes` gives).
pub open spec fn utf8_bytes(chars: Seq<char>) -> Seq<u8> {
    vstd::utf8::encode_utf8(chars)
}

/// `p` is the position of the first NUL byte of `s`.
pub open spec fn is_first_nul(s: Seq<u8>, p: int) -> bool {
    0 <= p < s.len() && s[p] == 0 && nul_free(s.take(p))
}

/// Position of the first NUL byte of `s`, or `s.len()` when it has none.
pub open spec fn first_nul(s: Seq<u8>) -> int {
    if nul_free(s) {
        s.len() as int
    } else {
        choose|p: int| is_first_nul(s, p)
    }
}

/// The first NUL is unique, so `first_nul` names it.
pub proof fn lemma_first_nul(s: Seq<u8>, p: int)
    requires
        is_first_nul(s, p),
    ensures
        first_nul(s) == p,
{
    assert(!nul_free(s));
    let q = choose|q: int| is_first_nul(s, q);
    assert(is_first_nul(s, q));
    if q < p {
        assert(s.take(p)[q] == s[q]);
    } else if q > p {
        assert(s.take(q)[p] == s[p]);
    }
}

/// Why bytes that should end in a single NUL were refused.
#[derive(Clone, Copy, Debug, PartialEq, Eq, Structural)]
pub enum FromBytesWithNulError {
    /// A NUL byte stands before the last position.
    InteriorNul { position: usize },
    /// There is no NUL byte at all.
    NotNulTerminated,
}

/// `n` is the length of the longest prefix of `b` that is well-formed UTF-8.
pub open spec fn is_longest_valid_prefix(b: Seq<u8>, n: int) -> bool {
    &&& 0 <= n <= b.len()
    &&& vstd::utf8::valid_utf8(b.take(n))
    &&& forall|m: int| n < m <= b.len() ==> !vstd::utf8::valid_utf8(#[trigger] b.take(m))
}

/// Length of the longest prefix of `b` that is well-formed UTF-8.
pub open spec fn longest_valid_prefix(b: Seq<u8>) -> int {
    choose|n: int| is_longest_valid_prefix(b, n)
}

/// A longest well-formed prefix exists (the empty prefix is well-formed)
/// and is unique, so `longest_valid_prefix` names it.
pub proof fn lemma_longest_valid_prefix(b: Seq<u8>, n: int)
    ensures
        is_longest_valid_prefix(b, longest_valid_prefix(b)),
        is_longest_valid_prefix(b, n) ==> n == longest_valid_prefix(b),
{
    lemma_longest_valid_prefix_below(b, b.len() as int);
    let k = longest_valid_prefix(b);
    if is_longest_valid_prefix(b, n) {
        if n < k {
            assert(!vstd::utf8::valid_utf8(b.take(k)));
        } else if k < n {
            assert(!vstd::utf8::valid_utf8(b.take(n)));
        }
    }
}

proof fn lemma_longest_valid_prefix_below(b: Seq<u8>, m: int)
    requires
        0 <= m <= b.len(),
        forall|j: int| m < j <= b.len() ==> !vstd::utf8::valid_utf8(#[trigger] b.take(j)),
    ensures
        exists|n: int| is_longest_valid_prefix(b, n),
    decreases m,
{
    if vstd::utf8::valid_utf8(b.take(m)) {
        assert(is_longest_valid_prefix(b, m));
    } else {
        if m == 0 {
            assert(b.take(0) =~= Seq::<u8>::empty());
            assert(false);
        }
        lemma_longest_valid_prefix_below(b, m - 1);
    }
}

/// Where well-formed UTF-8 stops in refused bytes, as `core::str::from_utf8`
/// reports it. Its view is `(valid_up_to, error_len)`.
#[derive(Clone, Copy, Debug, PartialEq, Eq, Structural)]
pub struct Utf8Error {
    pub(crate) valid_up_to: usize,
    pub(crate) error_len: Option<usize>,
}

impl View for Utf8Error {
    type V = (int, Option<usize>);

    closed spec fn view(&self) -> (int, Option<usize>) {
        (self.valid_up_to as int, self.error_len)
    }
}

/// The error that checking `b` as UTF-8 reports.
pub closed spec fn utf8_error_of(b: Seq<u8>) -> Utf8Error {
    Utf8Error { valid_up_to: longest_valid_prefix(b) as usize, error_len: utf8_error_len(b) }
}

/// What `utf8_error_of` holds: the length of the longest well-formed prefix,
/// and the length of the invalid sequence after it.
pub proof fn lemma_utf8_error_of(b: Seq<u8>)
    requires
        b.len() <= usize::MAX,
    ensures
        utf8_error_of(b)@ == (longest_valid_prefix(b), utf8_error_len(b)),
        is_longest_valid_prefix(b, utf8_error_of(b)@.0),
{
    lemma_longest_valid_prefix(b, 0);
}

impl Utf8Error {
    /// Length of the longest prefix of the refused bytes that is well-formed
    /// UTF-8.
    pub fn valid_up_to(&self) -> (r: usize)
        ensures
            r == self@.0,
    {
        self.valid_up_to
    }

    /// Length of the invalid sequence after `valid_up_to`, or `None` when the
    /// input ends inside a sequence.
    pub fn error_len(&self) -> (r: Option<usize>)
        ensures
            r == self@.1,
    {
        self.error_len
    }
}

/// Checks `bytes` as UTF-8, returning the text or the error that
/// `utf8_error_of` names.
pub(crate) fn check_utf8(bytes: &[u8]) -> (r: Result<&str, Utf8Error>)
    ensures
        r is Ok <==> vstd::utf8::valid_utf8(bytes@),
        r matches Ok(s) ==> utf8_bytes(s@) == bytes@,
        r matches Err(e) ==> e == utf8_error_of(bytes@),
{
    match str_from_utf8(bytes) {
        Ok(s) => Ok(s),
        Err(e) => {
            proof {
                lemma_longest_valid_prefix(bytes@, e.valid_up_to as int);
            }
            Err(e)
        },
    }
}

/// Why bytes were refused as the content of a `CStr8`.
#[derive(Clone, Copy, Debug, PartialEq, Eq, Structural)]
pub enum CStr8Error {
    /// The text is not well-formed UTF-8; the error says where.
    InvalidUtf8(Utf8Error),
    /// The NUL bytes are not where they must be.
    NulError(FromBytesWithNulError),
}

/// What checking `b` as UTF-8 text followed by exactly one NUL gives: the
/// text, or the first reason to refuse it. NUL placement is checked before
/// UTF-8.
pub open spec fn utf8_with_nul_outcome(b: Seq<u8>) -> Result<Seq<u8>, CStr8Error> {
    let p = first_nul(b);
    if p == b.len() {
        Err(CStr8Error::NulError(FromBytesWithNulError::NotNulTerminated))
    } else if p + 1 < b.len() {
        Err(CStr8Error::NulError(FromBytesWithNulError::InteriorNul { position: p as usize }))
    } else if !vstd::utf8::valid_utf8(b.take(p)) {
        Err(CStr8Error::InvalidUtf8(utf8_error_of(b.take(p))))
    } else {
        Ok(b.take(p))
    }
}

/// Different character sequences have different UTF-8 bytes. So `as_str` of
/// a value whose text is the bytes of a string `s` (as `new(s)` makes) gives
/// back `s`.
pub proof fn lemma_utf8_bytes_injective(a: Seq<char>, b: Seq<char>)
    requires
        utf8_bytes(a) == utf8_bytes(b),
    ensures
        a == b,
{
    vstd::utf8::encode_utf8_decode_utf8(a);
    vstd::utf8::encode_utf8_decode_utf8(b);
}

/// Position of the first NUL byte of `bytes`, or its length when it has none.
pub fn find_nul(bytes: &[u8]) -> (p: usize)
    ensures
        p == first_nul(bytes@),
        p <= bytes@.len(),
        p < bytes@.len() ==> is_first_nul(bytes@, p as int),
        p == bytes@.len() ==> nul_free(bytes@),
{
    let mut i: usize = 0;
    while i < bytes.len()
        invariant
            i <= bytes@.len(),
            nul_free(bytes@.take(i as int)),
        decreases bytes@.len() - i,
    {
        if bytes[i] == 0 {
            proof {
                lemma_first_nul(bytes@, i as int);
            }
            return i;
        }
        assert(bytes@.take(i + 1) =~= bytes@.take(i as int).push(bytes@[i as int]));
        i = i + 1;
    }
    assert(bytes@.take(i as int) =~= bytes@);
    i
}

/// Checks that `bytes` is UTF-8 text followed by exactly one NUL, and
/// returns the length of the text.
pub(crate) fn check_utf8_with_nul(bytes: &[u8]) -> (r: Result<usize, CStr8Error>)
    ensures
        match r {
            Ok(n) => n + 1 == bytes@.len() && is_first_nul(bytes@, n as int)
                && utf8_with_nul_outcome(bytes@) == Ok::<
                Seq<u8>,
                CStr8Error,
            >(bytes@.take(n as int)),
            Err(e) => utf8_with_nul_outcome(bytes@) == Err::<Seq<u8>, CStr8Error>(e),
        },
{
    let p = find_nul(bytes);
    if p == bytes.len() {
        return Err(CStr8Error::NulError(FromBytesWithNulError::NotNulTerminated));
    }
    if p + 1 < bytes.len() {
        return Err(CStr8Error::NulError(FromBytesWithNulError::InteriorNul { position: p }));
    }
    let text = vstd::slice::slice_subrange(bytes, 0, p);
    assert(text@ =~= bytes@.take(p as int));
    match check_utf8(text) {
        Ok(_) => Ok(p),
        Err(e) => Err(CStr8Error::InvalidUtf8(e)),
    }
}

/// Text that is valid UTF-8 without NUL bytes, stored with one NUL
/// terminator. Its view is the text, without the terminator.
#[derive(Debug, Eq, Ord)]
pub struct CStr8 {
    bytes: Vec<u8>,
}

impl CStr8 {
    #[verifier::type_invariant]
    spec fn terminated(self) -> bool {
        &&& self.bytes@.len() > 0
        &&& self.bytes@.last() == 0
        &&& is_cstr8_text(self.bytes@.drop_last())
    }
}

impl View for CStr8 {
    type V = Seq<u8>;

    closed spec fn view(&self) -> Seq<u8> {
        self.bytes@.drop_last()
    }
}

impl CStr8 {
    /// Builds a `CStr8` holding `text`.
    pub(crate) fn from_text(text: &[u8]) -> (r: CStr8)
        requires
            is_cstr8_text(text@),
        ensures
            r@ == text@,
    {
        let mut bytes: Vec<u8> = Vec::new();
        let mut i: usize = 0;
        while i < text.len()
            invariant
                i <= text@.len(),
                bytes@ == text@.take(i as int),
            decreases text@.len() - i,
        {
            bytes.push(text[i]);
            assert(text@.take(i + 1) =~= text@.take(i as int).push(text@[i as int]));
            i = i + 1;
        }
        bytes.push(0);
        assert(text@.take(i as int) =~= text@);
        assert(bytes@.drop_last() =~= text@);
        CStr8 { bytes }
    }

    /// Reads `bytes` as UTF-8 text followed by exactly one NUL.
    ///
    /// Fails with `NulError(NotNulTerminated)` when there is no NUL, with
    /// `NulError(InteriorNul { position })` when the first NUL is not the last
    /// byte, and with `InvalidUtf8` (telling where) when the text before the NUL is not
    /// well-formed UTF-8.
    pub fn from_utf8_with_nul(bytes: &[u8]) -> (r: Result<CStr8, CStr8Error>)
        ensures
            match r {
                Ok(c) => utf8_with_nul_outcome(bytes@) == Ok::<Seq<u8>, CStr8Error>(c@),
                Err(e) => utf8_with_nul_outcome(bytes@) == Err::<Seq<u8>, CStr8Error>(e),
            },
    {
        match check_utf8_with_nul(bytes) {
            Ok(n) => {
                let text = vstd::slice::slice_subrange(bytes, 0, n);
                assert(text@ =~= bytes@.take(n as int));
                Ok(CStr8::from_text(text))
            },
            Err(e) => Err(e),
        }
    }

    /// The text, without the terminator.
    pub fn as_bytes(&self) -> (r: &[u8])
        ensures
            r@ == self@,
            is_cstr8_text(r@),
    {
        proof {
            use_type_invariant(self);
        }
        let all = self.bytes.as_slice();
        let r = vstd::slice::slice_subrange(all, 0, all.len() - 1);
        assert(r@ =~= self.bytes@.drop_last());
        r
    }

    /// The text followed by its NUL terminator.
    pub fn as_bytes_with_nul(&self) -> (r: &[u8])
        ensures
            r@ == self@.push(0),
            is_cstr8_text(self@),
    {
        proof {
            use_type_invariant(self);
        }
        assert(self.bytes@ =~= self.bytes@.drop_last().push(0));
        self.bytes.as_slice()
    }

    /// The text as a string slice.
    pub fn as_str(&self) -> (r: &str)
        ensures
            utf8_bytes(r@) == self@,
    {
        match str_from_utf8(self.as_bytes()) {
            Ok(s) => s,
            Err(_) => {
                proof {
                    assert(false);
                }
                ""
            },
        }
    }

    /// Length of the text in bytes, without the terminator.
    pub fn len(&self) -> (r: usize)
        ensures
            r == self@.len(),
    {
        self.as_bytes().len()
    }
}

impl Clone for CStr8 {
    fn clone(&self) -> (r: Self)
        ensures
            r@ == self@,
    {
        CStr8::from_text(self.as_bytes())
    }
}

impl core::hash::Hash for CStr8 {
    /// Hashes as the text's `str` does.
    fn hash<H: core::hash::Hasher>(&self, state: &mut H) {
        hash_str(self.as_str(), state)
    }
}

impl PartialEq for CStr8 {
    fn eq(&self, other: &Self) -> (r: bool) {
        bytes_equal(self.as_bytes(), other.as_bytes())
    }
}

impl vstd::std_specs::cmp::PartialEqSpecImpl for CStr8 {
    open spec fn obeys_eq_spec() -> bool {
        true
    }

    open spec fn eq_spec(&self, other: &Self) -> bool {
        self@ == other@
    }
}

impl PartialOrd for CStr8 {
    fn partial_cmp(&self, other: &Self) -> (r: Option<Ordering>) {
        Some(to_std_ordering(compare_bytes(self.as_bytes(), other.as_bytes())))
    }
}

impl vstd::std_specs::cmp::PartialOrdSpecImpl for CStr8 {
    open spec fn obeys_partial_cmp_spec() -> bool {
        true
    }

    open spec fn partial_cmp_spec(&self, other: &Self) -> Option<Ordering> {
        Some(std_ordering(lex_order(self@, other@)))
    }
}

impl PartialEq<str> for CStr8 {
    fn eq(&self, other: &str) -> (r: bool) {
        bytes_equal(self.as_bytes(), other.as_bytes())
    }
}

impl vstd::std_specs::cmp::PartialEqSpecImpl<str> for CStr8 {
    open spec fn obeys_eq_spec() -> bool {
        true
    }

    open spec fn eq_spec(&self, other: &str) -> bool {
        self@ == utf8_bytes(other@)
    }
}

impl PartialOrd<str> for CStr8 {
    fn partial_cmp(&self, other: &str) -> (r: Option<Ordering>) {
        Some(to_std_ordering(compare_bytes(self.as_bytes(), other.as_bytes())))
    }
}

impl vstd::std_specs::cmp::PartialOrdSpecImpl<str> for CStr8 {
    open spec fn obeys_partial_cmp_spec() -> bool {
        true
    }

    open spec fn partial_cmp_spec(&self, other: &str) -> Option<Ordering> {
        Some(std_ordering(lex_order(self@, utf8_bytes(other@))))
    }
}

/// The error of `CString8::new`: where the first NUL byte stands, and the
/// bytes that were refused.
#[derive(Debug, PartialEq, Eq)]
pub struct NulError {
    position: usize,
    bytes: Vec<u8>,
}

impl View for NulError {
    type V = (int, Seq<u8>);

    closed spec fn view(&self) -> (int, Seq<u8>) {
        (self.position as int, self.bytes@)
    }
}

impl Clone for NulError {
    fn clone(&self) -> (r: Self)
        ensures
            r@ == self@,
    {
        NulError { position: self.position, bytes: vstd::slice::slice_to_vec(self.bytes.as_slice()) }
    }
}

impl NulError {
    /// Position of the first NUL byte in the refused bytes.
    pub fn nul_position(&self) -> (r: usize)
        ensures
            r == self@.0,
    {
        self.position
    }

    /// The refused bytes.
    pub fn into_vec(self) -> (r: Vec<u8>)
        ensures
            r@ == self@.1,
    {
        self.bytes
    }
}

/// An owned `CStr8`, made from a string slice.
#[derive(Debug, PartialEq, Eq)]
pub struct CString8 {
    inner: CStr8,
}

impl View for CString8 {
    type V = Seq<u8>;

    closed spec fn view(&self) -> Seq<u8> {
        self.inner@
    }
}

impl Clone for CString8 {
    fn clone(&self) -> (r: Self)
        ensures
            r@ == self@,
    {
        CString8 { inner: self.inner.clone() }
    }
}

impl CString8 {
    /// Copies `s` and appends a NUL terminator. Fails when `s` holds a NUL
    /// byte, reporting the first one.
    pub fn new(s: &str) -> (r: Result<CString8, NulError>)
        ensures
            r is Ok <==> nul_free(utf8_bytes(s@)),
            match r {
                Ok(c) => c@ == utf8_bytes(s@),
                Err(e) => e@ == (first_nul(utf8_bytes(s@)), utf8_bytes(s@)),
            },
    {
        let bytes = s.as_bytes();
        proof {
            vstd::utf8::encode_utf8_valid_utf8(s@);
        }
        let p = find_nul(bytes);
        if p < bytes.len() {
            proof {
                assert(bytes@[p as int] == 0);
            }
            return Err(NulError { position: p, bytes: vstd::slice::slice_to_vec(bytes) });
        }
        Ok(CString8 { inner: CStr8::from_text(bytes) })
    }

    /// Builds a `CString8` holding `text`.
    pub(crate) fn from_text(text: &[u8]) -> (r: CString8)
        requires
            is_cstr8_text(text@),
        ensures
            r@ == text@,
    {
        CString8 { inner: CStr8::from_text(text) }
    }

    /// The held `CStr8`.
    pub fn as_cstr8(&self) -> (r: &CStr8)
        ensures
            r@ == self@,
    {
        &self.inner
    }

    /// Makes an owned copy of `s`.
    pub fn from_cstr8(s: &CStr8) -> (r: CString8)
        ensures
            r@ == s@,
    {
        CString8 { inner: s.clone() }
    }

    /// The text as a string slice.
    pub fn as_str(&self) -> (r: &str)
        ensures
            utf8_bytes(r@) == self@,
    {
        self.inner.as_str()
    }

    /// The text, without the terminator.
    pub fn as_bytes(&self) -> (r: &[u8])
        ensures
            r@ == self@,
            is_cstr8_text(r@),
    {
        self.inner.as_bytes()
    }

    /// The text followed by its NUL terminator.
    pub fn as_bytes_with_nul(&self) -> (r: &[u8])
        ensures
            r@ == self@.push(0),
    {
        self.inner.as_bytes_with_nul()
    }
}

} // verus!
