//! Properties that relate the constructors of `CStr8` and `CompactCStr8`.
use core::cmp::Ordering;
use vstd::prelude::*;
use vstd::std_specs::cmp::{PartialEqSpec, PartialOrdSpec};

use crate::compact::{from_utf8_outcome, CompactCStr8};
use crate::cstr8::CStr8;
use crate::order::{byte_precedes, law_lex_order_outcomes};
use crate::cstr8::{
    first_nul, is_cstr8_text, is_first_nul, lemma_first_nul, nul_free, utf8_bytes,
    utf8_with_nul_outcome,
};

verus! {

/// Bytes that hold a NUL have a first one.
pub proof fn lemma_first_nul_exists(s: Seq<u8>)
    requires
        !nul_free(s),
    ensures
        is_first_nul(s, first_nul(s)),
    decreases s.len(),
{
    let t = s.drop_last();
    if nul_free(t) {
        let i = choose|i: int| 0 <= i < s.len() && s[i] == 0;
        if i < s.len() - 1 {
            assert(t[i] == s[i]);
        }
        assert(s[s.len() - 1] == 0);
        assert(s.take(s.len() - 1) =~= t);
        lemma_first_nul(s, s.len() - 1);
    } else {
        lemma_first_nul_exists(t);
        let p = first_nul(t);
        assert(s.take(p) =~= t.take(p));
        assert(s[p] == t[p]);
        lemma_first_nul(s, p);
    }
}

/// The UTF-8 bytes of any string pass the UTF-8 check, so `from_utf8` on
/// them succeeds exactly when `CString8::new` and `CompactCStr8::new` do
/// (when they hold no NUL), and then keeps the same text.
pub proof fn law_from_utf8_agrees_with_new(chars: Seq<char>)
    ensures
        from_utf8_outcome(utf8_bytes(chars)) is Ok <==> nul_free(utf8_bytes(chars)),
        nul_free(utf8_bytes(chars)) ==> from_utf8_outcome(utf8_bytes(chars)) == Ok::<
            Seq<u8>,
            crate::cstr8::CStr8Error,
        >(utf8_bytes(chars)),
{
    vstd::utf8::encode_utf8_valid_utf8(chars);
}

/// Text followed by one NUL is always accepted by `from_utf8_with_nul`, which
/// gives the text back.
pub proof fn law_from_utf8_with_nul_accepts_terminated_text(text: Seq<u8>)
    requires
        is_cstr8_text(text),
    ensures
        utf8_with_nul_outcome(text.push(0)) == Ok::<Seq<u8>, crate::cstr8::CStr8Error>(text),
{
    let b = text.push(0);
    assert(b.take(text.len() as int) =~= text);
    lemma_first_nul(b, text.len() as int);
}

/// What `from_utf8_with_nul` accepts is text followed by one NUL: its text
/// with the terminator is exactly the input.
pub proof fn law_from_utf8_with_nul_keeps_bytes(b: Seq<u8>)
    ensures
        utf8_with_nul_outcome(b) matches Ok(t) ==> is_cstr8_text(t) && t.push(0) == b,
{
    if utf8_with_nul_outcome(b) is Ok {
        let p = first_nul(b);
        assert(!nul_free(b)) by {
            if nul_free(b) {
                assert(p == b.len());
            }
        }
        lemma_first_nul_exists(b);
        assert(b.take(p).push(0) =~= b);
    }
}

/// `from_utf8` on text succeeds exactly when `from_utf8_with_nul` does on the
/// text with a NUL appended, and both keep the same text.
pub proof fn law_from_utf8_agrees_with_from_utf8_with_nul(text: Seq<u8>)
    ensures
        from_utf8_outcome(text) is Ok <==> utf8_with_nul_outcome(text.push(0)) is Ok,
        from_utf8_outcome(text) is Ok ==> utf8_with_nul_outcome(text.push(0))
            == from_utf8_outcome(text),
{
    if from_utf8_outcome(text) is Ok {
        law_from_utf8_with_nul_accepts_terminated_text(text);
    }
    if utf8_with_nul_outcome(text.push(0)) is Ok {
        law_from_utf8_with_nul_keeps_bytes(text.push(0));
        let t = utf8_with_nul_outcome(text.push(0))->Ok_0;
        assert(t =~= text) by {
            assert(t.push(0).drop_last() =~= t);
            assert(text.push(0).drop_last() =~= text);
        }
    }
}

/// A `CompactCStr8` compares, for equality and for order, exactly as a
/// `CStr8` with the same text does.
pub proof fn law_compact_compares_as_cstr8(a: CompactCStr8, b: CompactCStr8, x: CStr8, y: CStr8)
    requires
        a@ == x@,
        b@ == y@,
    ensures
        vstd::std_specs::cmp::PartialEqSpec::eq_spec(&a, &b)
            == vstd::std_specs::cmp::PartialEqSpec::eq_spec(&x, &y),
        vstd::std_specs::cmp::PartialOrdSpec::partial_cmp_spec(&a, &b)
            == vstd::std_specs::cmp::PartialOrdSpec::partial_cmp_spec(&x, &y),
{
}

/// Equality is equality of the texts, byte for byte, between any two of
/// `CompactCStr8`, `CStr8` and `str` (a `str` by its UTF-8 bytes). In
/// particular, texts of different lengths are never equal.
pub proof fn law_eq_is_text_equality(a: CompactCStr8, b: CompactCStr8, x: CStr8, y: CStr8, s: &str)
    ensures
        a.eq_spec(&b) <==> a@ == b@,
        x.eq_spec(&y) <==> x@ == y@,
        a.eq_spec(&x) <==> a@ == x@,
        x.eq_spec(&a) <==> x@ == a@,
        a.eq_spec(s) <==> a@ == utf8_bytes(s@),
        s.eq_spec(&a) <==> utf8_bytes(s@) == a@,
        x.eq_spec(s) <==> x@ == utf8_bytes(s@),
        a@.len() != b@.len() ==> !a.eq_spec(&b),
        a@.len() != utf8_bytes(s@).len() ==> !a.eq_spec(s),
        x@.len() != utf8_bytes(s@).len() ==> !x.eq_spec(s),
{
}

/// Comparing a `CStr8` with a `str` orders the text against the string's
/// UTF-8 bytes: `Less` when the text precedes them in byte order, `Equal`
/// when they are the same bytes, `Greater` when they precede the text. It is
/// the comparison with the `CStr8` holding those bytes.
pub proof fn law_cstr8_orders_against_str(c: CStr8, s: &str, d: CStr8)
    requires
        d@ == utf8_bytes(s@),
    ensures
        (c.partial_cmp_spec(s) == Some(Ordering::Less)) <==> byte_precedes(c@, utf8_bytes(s@)),
        (c.partial_cmp_spec(s) == Some(Ordering::Equal)) <==> c@ == utf8_bytes(s@),
        (c.partial_cmp_spec(s) == Some(Ordering::Greater)) <==> byte_precedes(utf8_bytes(s@), c@),
        c.partial_cmp_spec(s) == c.partial_cmp_spec(&d),
{
    law_lex_order_outcomes(c@, utf8_bytes(s@));
}

/// Comparing two `CStr8`s, or two `CompactCStr8`s, orders their texts in byte
/// order: `Less` when the first precedes the second, `Equal` when they are
/// the same bytes, `Greater` when the second precedes the first; and the
/// order agrees with `==`.
pub proof fn law_order_is_byte_order(a: CompactCStr8, b: CompactCStr8, x: CStr8, y: CStr8)
    ensures
        (a.partial_cmp_spec(&b) == Some(Ordering::Less)) <==> byte_precedes(a@, b@),
        (a.partial_cmp_spec(&b) == Some(Ordering::Equal)) <==> a@ == b@,
        (a.partial_cmp_spec(&b) == Some(Ordering::Greater)) <==> byte_precedes(b@, a@),
        (a.partial_cmp_spec(&b) == Some(Ordering::Equal)) <==> a.eq_spec(&b),
        (x.partial_cmp_spec(&y) == Some(Ordering::Less)) <==> byte_precedes(x@, y@),
        (x.partial_cmp_spec(&y) == Some(Ordering::Equal)) <==> x@ == y@,
        (x.partial_cmp_spec(&y) == Some(Ordering::Greater)) <==> byte_precedes(y@, x@),
        (x.partial_cmp_spec(&y) == Some(Ordering::Equal)) <==> x.eq_spec(&y),
{
    law_lex_order_outcomes(a@, b@);
    law_lex_order_outcomes(x@, y@);
}

} // verus!
