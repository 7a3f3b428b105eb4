//! `CompactCStr8`: an immutable owner of `CStr8` text that keeps short texts
//! inline and puts longer ones behind a shared `Arc`.
use core::cmp::Ordering;
use std::sync::Arc;
use vstd::prelude::*;

use crate::cstr8::{
    first_nul, is_cstr8_text, nul_free, utf8_bytes, CStr8, CStr8Error, CString8,
    FromBytesWithNulError, NulError, utf8_with_nul_outcome, check_utf8_with_nul, check_utf8,
    utf8_error_of,
};
use crate::order::{bytes_equal, compare_bytes, lex_order, std_ordering, to_std_ordering};
use crate::std_calls::{arc_clone, hash_str, str_debug, str_debug_string, str_from_utf8};

verus! {

/// Longest text, in bytes, that is kept inline.
pub const MAX_INLINE_LEN: usize = 21;

/// Size of the inline buffer: the longest inline text and its terminator.
const INLINE_BUF: usize = 22;

/// What `CompactCStr8::from_utf8` gives for `b`: the text, or why it was
/// refused. UTF-8 is checked first; a NUL byte is reported at position 0,
/// wherever it stands.
pub open spec fn from_utf8_outcome(b: Seq<u8>) -> Result<Seq<u8>, CStr8Error> {
    if !vstd::utf8::valid_utf8(b) {
        Err(CStr8Error::InvalidUtf8(utf8_error_of(b)))
    } else if !nul_free(b) {
        Err(CStr8Error::NulError(FromBytesWithNulError::InteriorNul { position: 0 }))
    } else {
        Ok(b)
    }
}

/// Owned text that is valid UTF-8 and NUL-terminated. Texts of up to
/// `MAX_INLINE_LEN` bytes are stored inline; longer ones behind an `Arc`, so
/// that cloning them shares the allocation. Its view is the text, without the
/// terminator.
#[derive(Debug)]
pub struct CompactCStr8 {
    repr: Repr,
}

#[derive(Debug)]
enum Repr {
    /// `buf[..len]` is the text, and every byte after it is NUL.
    Inline { buf: [u8; INLINE_BUF], len: u8 },
    /// A text longer than `MAX_INLINE_LEN` bytes.
    Arc(Arc<CStr8>),
}

impl CompactCStr8 {
    #[verifier::type_invariant]
    spec fn well_formed(self) -> bool {
        match self.repr {
            Repr::Inline { buf, len } => {
                &&& len <= MAX_INLINE_LEN
                &&& is_cstr8_text(buf@.take(len as int))
                &&& forall|i: int| len <= i < INLINE_BUF ==> buf@[i] == 0
            },
            Repr::Arc(a) => a@.len() > MAX_INLINE_LEN && is_cstr8_text(a@),
        }
    }
}

impl View for CompactCStr8 {
    type V = Seq<u8>;

    closed spec fn view(&self) -> Seq<u8> {
        match self.repr {
            Repr::Inline { buf, len } => buf@.take(len as int),
            Repr::Arc(a) => a@,
        }
    }
}

impl CompactCStr8 {
    /// Stores `text`, inline when it is short enough.
    fn from_text(text: &[u8]) -> (r: Self)
        requires
            is_cstr8_text(text@),
        ensures
            r@ == text@,
    {
        if text.len() <= MAX_INLINE_LEN {
            let mut buf = [0u8; INLINE_BUF];
            let mut i: usize = 0;
            while i < text.len()
                invariant
                    i <= text@.len() <= MAX_INLINE_LEN,
                    buf@.len() == INLINE_BUF,
                    forall|j: int| 0 <= j < i ==> buf@[j] == text@[j],
                    forall|j: int| i <= j < INLINE_BUF ==> buf@[j] == 0,
                decreases text@.len() - i,
            {
                buf[i] = text[i];
                i = i + 1;
            }
            assert(buf@.take(text.len() as int) =~= text@);
            CompactCStr8 { repr: Repr::Inline { buf, len: text.len() as u8 } }
        } else {
            let s = CStr8::from_text(text);
            CompactCStr8 { repr: Repr::Arc(Arc::new(s)) }
        }
    }

    /// Whether the text is stored inline, which is exactly when it is at most
    /// `MAX_INLINE_LEN` bytes long.
    pub fn is_inline(&self) -> (r: bool)
        ensures
            r == (self@.len() <= MAX_INLINE_LEN),
    {
        proof {
            use_type_invariant(self);
        }
        match &self.repr {
            Repr::Inline { .. } => true,
            Repr::Arc(_) => false,
        }
    }

    /// Copies the text of `s`; texts of up to `MAX_INLINE_LEN` bytes are
    /// stored inline, longer ones behind an `Arc`.
    pub fn from_cstr8(s: &CStr8) -> (r: Self)
        ensures
            r@ == s@,
    {
        Self::from_text(s.as_bytes())
    }

    /// Copies `s` and adds the terminator. Fails when `s` holds a NUL byte,
    /// reporting the first one and the bytes of `s`.
    pub fn new(s: &str) -> (r: Result<Self, NulError>)
        ensures
            r is Ok <==> nul_free(utf8_bytes(s@)),
            match r {
                Ok(c) => c@ == utf8_bytes(s@),
                Err(e) => e@ == (first_nul(utf8_bytes(s@)), utf8_bytes(s@)),
            },
    {
        match CString8::new(s) {
            Ok(cs) => Ok(Self::from_cstr8(cs.as_cstr8())),
            Err(e) => Err(e),
        }
    }

    /// Reads `bytes` as the text and adds the terminator. Fails with
    /// `InvalidUtf8` (telling where well-formed UTF-8 stops) when the bytes
    /// are not well-formed UTF-8, and otherwise
    /// with `NulError(InteriorNul { position: 0 })` when they hold a NUL byte.
    pub fn from_utf8(bytes: &[u8]) -> (r: Result<Self, CStr8Error>)
        ensures
            match r {
                Ok(c) => from_utf8_outcome(bytes@) == Ok::<Seq<u8>, CStr8Error>(c@),
                Err(e) => from_utf8_outcome(bytes@) == Err::<Seq<u8>, CStr8Error>(e),
            },
    {
        let s = match check_utf8(bytes) {
            Ok(s) => s,
            Err(e) => {
                return Err(CStr8Error::InvalidUtf8(e));
            },
        };
        if bytes.len() <= MAX_INLINE_LEN {
            let mut buf = [0u8; INLINE_BUF];
            let mut i: usize = 0;
            while i < bytes.len()
                invariant
                    i <= bytes@.len() <= MAX_INLINE_LEN,
                    vstd::utf8::valid_utf8(bytes@),
                    buf@.len() == INLINE_BUF,
                    nul_free(bytes@.take(i as int)),
                    forall|j: int| 0 <= j < i ==> buf@[j] == bytes@[j],
                    forall|j: int| i <= j < INLINE_BUF ==> buf@[j] == 0,
                decreases bytes@.len() - i,
            {
                let b = bytes[i];
                if b == 0 {
                    assert(bytes@[i as int] == 0);
                    return Err(CStr8Error::NulError(FromBytesWithNulError::InteriorNul { position: 0 }));
                }
                buf[i] = b;
                assert(bytes@.take(i + 1) =~= bytes@.take(i as int).push(b));
                i = i + 1;
            }
            assert(buf@.take(bytes.len() as int) =~= bytes@);
            assert(bytes@.take(bytes.len() as int) =~= bytes@);
            Ok(CompactCStr8 { repr: Repr::Inline { buf, len: bytes.len() as u8 } })
        } else {
            match CString8::new(s) {
                Ok(cs) => Ok(Self::from_cstr8(cs.as_cstr8())),
                Err(_) => Err(CStr8Error::NulError(FromBytesWithNulError::InteriorNul { position: 0 })),
            }
        }
    }

    /// Reads `bytes` as UTF-8 text followed by exactly one NUL, with the
    /// errors of `CStr8::from_utf8_with_nul`.
    pub fn from_utf8_with_nul(bytes: &[u8]) -> (r: Result<Self, CStr8Error>)
        ensures
            match r {
                Ok(c) => utf8_with_nul_outcome(bytes@) == Ok::<Seq<u8>, CStr8Error>(c@),
                Err(e) => utf8_with_nul_outcome(bytes@) == Err::<Seq<u8>, CStr8Error>(e),
            },
    {
        match check_utf8_with_nul(bytes) {
            Ok(n) => {
                let text = vstd::slice::slice_subrange(bytes, 0, n);
                assert(text@ =~= bytes@.take(n as int));
                Ok(Self::from_text(text))
            },
            Err(e) => Err(e),
        }
    }

    /// The text, without the terminator.
    pub fn as_bytes(&self) -> (r: &[u8])
        ensures
            r@ == self@,
            is_cstr8_text(r@),
    {
        proof {
            use_type_invariant(self);
        }
        match &self.repr {
            Repr::Inline { buf, len } => vstd::slice::slice_subrange(buf.as_slice(), 0, *len as usize),
            Repr::Arc(a) => a.as_bytes(),
        }
    }

    /// The text followed by its NUL terminator.
    pub fn as_bytes_with_nul(&self) -> (r: &[u8])
        ensures
            r@ == self@.push(0),
    {
        proof {
            use_type_invariant(self);
        }
        match &self.repr {
            Repr::Inline { buf, len } => {
                let r = vstd::slice::slice_subrange(buf.as_slice(), 0, *len as usize + 1);
                assert(r@ =~= buf@.take(*len as int).push(0));
                r
            },
            Repr::Arc(a) => a.as_bytes_with_nul(),
        }
    }

    /// The text as a string slice.
    pub fn as_str(&self) -> (r: &str)
        ensures
            utf8_bytes(r@) == self@,
    {
        match str_from_utf8(self.as_bytes()) {
            Ok(s) => s,
            Err(_) => {
                proof {
                    assert(false);
                }
                ""
            },
        }
    }

    /// Length of the text in bytes, without the terminator.
    pub fn len(&self) -> (r: usize)
        ensures
            r == self@.len(),
    {
        self.as_bytes().len()
    }

    /// The text as an owned `String`, as displaying it writes it.
    pub fn to_string(&self) -> (r: String)
        ensures
            utf8_bytes(r@) == self@,
    {
        String::from_str(self.as_str())
    }

    /// The text quoted and escaped, as `str`'s debug form writes it.
    pub fn to_debug_string(&self) -> (r: String)
        ensures
            r@ == str_debug(vstd::utf8::decode_utf8(self@)),
    {
        let s = self.as_str();
        proof {
            vstd::utf8::encode_utf8_decode_utf8(s@);
        }
        str_debug_string(s)
    }

    /// A `CStr8` holding the same text.
    pub fn to_cstr8(&self) -> (r: CStr8)
        ensures
            r@ == self@,
    {
        CStr8::from_text(self.as_bytes())
    }

    /// Stores the text of `s`.
    pub fn from_cstring8(s: CString8) -> (r: Self)
        ensures
            r@ == s@,
    {
        Self::from_cstr8(s.as_cstr8())
    }

    /// Moves the text into a `CString8`.
    pub fn into_cstring8(self) -> (r: CString8)
        ensures
            r@ == self@,
    {
        CString8::from_text(self.as_bytes())
    }

    /// Moves the text into an `Arc<CStr8>`; a text that already lives behind
    /// an `Arc` keeps it.
    pub fn into_arc(self) -> (r: Arc<CStr8>)
        ensures
            r@ == self@,
    {
        proof {
            use_type_invariant(&self);
        }
        match self.repr {
            Repr::Arc(a) => a,
            Repr::Inline { buf, len } => {
                let text = vstd::slice::slice_subrange(buf.as_slice(), 0, len as usize);
                Arc::new(CStr8::from_text(text))
            },
        }
    }

    /// Lexicographic comparison of the texts, as `str` and `CStr8` compare.
    pub fn cmp(&self, other: &Self) -> (r: Ordering)
        ensures
            r == std_ordering(lex_order(self@, other@)),
    {
        to_std_ordering(compare_bytes(self.as_bytes(), other.as_bytes()))
    }
}

impl Default for CompactCStr8 {
    /// The empty text, stored inline.
    fn default() -> (r: Self)
        ensures
            r@ == Seq::<u8>::empty(),
    {
        let r = CompactCStr8 { repr: Repr::Inline { buf: [0u8; INLINE_BUF], len: 0 } };
        assert(r@ =~= Seq::<u8>::empty());
        r
    }
}

impl Clone for CompactCStr8 {
    /// Copies an inline text; shares the allocation of one behind an `Arc`.
    fn clone(&self) -> (r: Self)
        ensures
            r@ == self@,
    {
        proof {
            use_type_invariant(self);
        }
        match &self.repr {
            Repr::Inline { buf, len } => CompactCStr8 { repr: Repr::Inline { buf: *buf, len: *len } },
            Repr::Arc(a) => CompactCStr8 { repr: Repr::Arc(arc_clone(a)) },
        }
    }
}

impl core::hash::Hash for CompactCStr8 {
    /// Hashes as the text's `str` does, so as `CStr8` does too.
    fn hash<H: core::hash::Hasher>(&self, state: &mut H) {
        hash_str(self.as_str(), state)
    }
}

impl AsRef<str> for CompactCStr8 {
    fn as_ref(&self) -> (r: &str)
        ensures
            utf8_bytes(<str as View>::view(r)) == self@,
    {
        self.as_str()
    }
}

impl AsRef<[u8]> for CompactCStr8 {
    fn as_ref(&self) -> (r: &[u8])
        ensures
            <[u8] as View>::view(r) == self@,
    {
        self.as_bytes()
    }
}

impl core::borrow::Borrow<str> for CompactCStr8 {
    /// The text as a string slice, so that maps keyed by `CompactCStr8` can
    /// be searched with `&str` keys.
    fn borrow(&self) -> (r: &str)
        ensures
            utf8_bytes(<str as View>::view(r)) == self@,
    {
        self.as_str()
    }
}

impl PartialEq for CompactCStr8 {
    fn eq(&self, other: &Self) -> (r: bool) {
        bytes_equal(self.as_bytes(), other.as_bytes())
    }
}

impl vstd::std_specs::cmp::PartialEqSpecImpl for CompactCStr8 {
    open spec fn obeys_eq_spec() -> bool {
        true
    }

    open spec fn eq_spec(&self, other: &Self) -> bool {
        self@ == other@
    }
}

impl Eq for CompactCStr8 {

}

impl PartialOrd for CompactCStr8 {
    fn partial_cmp(&self, other: &Self) -> (r: Option<Ordering>) {
        Some(to_std_ordering(compare_bytes(self.as_bytes(), other.as_bytes())))
    }
}

impl vstd::std_specs::cmp::PartialOrdSpecImpl for CompactCStr8 {
    open spec fn obeys_partial_cmp_spec() -> bool {
        true
    }

    open spec fn partial_cmp_spec(&self, other: &Self) -> Option<Ordering> {
        Some(std_ordering(lex_order(self@, other@)))
    }
}

impl PartialEq<str> for CompactCStr8 {
    fn eq(&self, other: &str) -> (r: bool) {
        bytes_equal(self.as_bytes(), other.as_bytes())
    }
}

impl vstd::std_specs::cmp::PartialEqSpecImpl<str> for CompactCStr8 {
    open spec fn obeys_eq_spec() -> bool {
        true
    }

    open spec fn eq_spec(&self, other: &str) -> bool {
        self@ == utf8_bytes(other@)
    }
}

impl PartialEq<CompactCStr8> for str {
    fn eq(&self, other: &CompactCStr8) -> (r: bool) {
        bytes_equal(self.as_bytes(), other.as_bytes())
    }
}

impl vstd::std_specs::cmp::PartialEqSpecImpl<CompactCStr8> for str {
    open spec fn obeys_eq_spec() -> bool {
        true
    }

    open spec fn eq_spec(&self, other: &CompactCStr8) -> bool {
        utf8_bytes(self@) == other@
    }
}

impl PartialEq<CStr8> for CompactCStr8 {
    fn eq(&self, other: &CStr8) -> (r: bool) {
        bytes_equal(self.as_bytes(), other.as_bytes())
    }
}

impl vstd::std_specs::cmp::PartialEqSpecImpl<CStr8> for CompactCStr8 {
    open spec fn obeys_eq_spec() -> bool {
        true
    }

    open spec fn eq_spec(&self, other: &CStr8) -> bool {
        self@ == other@
    }
}

impl PartialEq<CompactCStr8> for CStr8 {
    fn eq(&self, other: &CompactCStr8) -> (r: bool) {
        bytes_equal(self.as_bytes(), other.as_bytes())
    }
}

impl vstd::std_specs::cmp::PartialEqSpecImpl<CompactCStr8> for CStr8 {
    open spec fn obeys_eq_spec() -> bool {
        true
    }

    open spec fn eq_spec(&self, other: &CompactCStr8) -> bool {
        self@ == other@
    }
}

impl<'a> From<&'a CStr8> for CompactCStr8 {
    /// Same as `CompactCStr8::from_cstr8`.
    fn from(s: &'a CStr8) -> (r: Self)
        ensures
            r@ == s@,
    {
        Self::from_cstr8(s)
    }
}

impl<'a> vstd::std_specs::convert::FromSpecImpl<&'a CStr8> for CompactCStr8 {
    /// The result is fixed by its text only, which `from` states; its storage
    /// is not a function of the argument's value.
    open spec fn obeys_from_spec() -> bool {
        false
    }

    open spec fn from_spec(v: &'a CStr8) -> Self {
        choose|r: Self| r@ == v@
    }
}

impl From<CString8> for CompactCStr8 {
    /// Same as `CompactCStr8::from_cstring8`.
    fn from(s: CString8) -> (r: Self)
        ensures
            r@ == s@,
    {
        Self::from_cstring8(s)
    }
}

impl vstd::std_specs::convert::FromSpecImpl<CString8> for CompactCStr8 {
    /// The result is fixed by its text only, which `from` states.
    open spec fn obeys_from_spec() -> bool {
        false
    }

    open spec fn from_spec(v: CString8) -> Self {
        choose|r: Self| r@ == v@
    }
}

impl From<CompactCStr8> for CString8 {
    /// Same as `CompactCStr8::into_cstring8`.
    fn from(s: CompactCStr8) -> (r: Self)
        ensures
            r@ == s@,
    {
        s.into_cstring8()
    }
}

impl vstd::std_specs::convert::FromSpecImpl<CompactCStr8> for CString8 {
    /// The result is fixed by its text only, which `from` states.
    open spec fn obeys_from_spec() -> bool {
        false
    }

    open spec fn from_spec(v: CompactCStr8) -> Self {
        choose|r: Self| r@ == v@
    }
}

impl From<CompactCStr8> for Arc<CStr8> {
    /// Same as `CompactCStr8::into_arc`.
    fn from(s: CompactCStr8) -> (r: Self)
        ensures
            r@ == s@,
    {
        s.into_arc()
    }
}

impl vstd::std_specs::convert::FromSpecImpl<CompactCStr8> for Arc<CStr8> {
    /// The result is fixed by its text only, which `from` states.
    open spec fn obeys_from_spec() -> bool {
        false
    }

    open spec fn from_spec(v: CompactCStr8) -> Self {
        choose|r: Self| r@ == v@
    }
}

impl<'a> TryFrom<&'a str> for CompactCStr8 {
    type Error = CStr8Error;

    /// Same as `CompactCStr8::from_utf8` on the bytes of `s`: fails exactly
    /// when `s` holds a NUL byte.
    fn try_from(s: &'a str) -> (r: Result<Self, CStr8Error>)
        ensures
            match r {
                Ok(c) => from_utf8_outcome(utf8_bytes(s@)) == Ok::<Seq<u8>, CStr8Error>(c@),
                Err(e) => from_utf8_outcome(utf8_bytes(s@)) == Err::<Seq<u8>, CStr8Error>(e),
            },
    {
        Self::from_utf8(s.as_bytes())
    }
}

impl<'a> vstd::std_specs::convert::TryFromSpecImpl<&'a str> for CompactCStr8 {
    /// A success is fixed by its text only, which `try_from` states.
    open spec fn obeys_try_from_spec() -> bool {
        false
    }

    open spec fn try_from_spec(v: &'a str) -> Result<Self, CStr8Error> {
        match from_utf8_outcome(utf8_bytes(v@)) {
            Ok(t) => Ok(choose|r: Self| r@ == t),
            Err(e) => Err(e),
        }
    }
}

impl<'a> TryFrom<&'a [u8]> for CompactCStr8 {
    type Error = CStr8Error;

    /// Same as `CompactCStr8::from_utf8`.
    fn try_from(bytes: &'a [u8]) -> (r: Result<Self, CStr8Error>)
        ensures
            match r {
                Ok(c) => from_utf8_outcome(bytes@) == Ok::<Seq<u8>, CStr8Error>(c@),
                Err(e) => from_utf8_outcome(bytes@) == Err::<Seq<u8>, CStr8Error>(e),
            },
    {
        Self::from_utf8(bytes)
    }
}

impl<'a> vstd::std_specs::convert::TryFromSpecImpl<&'a [u8]> for CompactCStr8 {
    /// A success is fixed by its text only, which `try_from` states.
    open spec fn obeys_try_from_spec() -> bool {
        false
    }

    open spec fn try_from_spec(v: &'a [u8]) -> Result<Self, CStr8Error> {
        match from_utf8_outcome(v@) {
            Ok(t) => Ok(choose|r: Self| r@ == t),
            Err(e) => Err(e),
        }
    }
}

} // verus!
