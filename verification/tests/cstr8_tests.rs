use cstr8::{CStr8, CStr8Error, CString8, FromBytesWithNulError};

/// The position and length that an `InvalidUtf8` error reports.
fn invalid_utf8_parts(e: CStr8Error) -> (usize, Option<usize>) {
    match e {
        CStr8Error::InvalidUtf8(u) => (u.valid_up_to(), u.error_len()),
        other => panic!("not a UTF-8 error: {other:?}"),
    }
}

/// Builds a `CStr8` from text the way a literal is turned into one: the bytes
/// with a NUL appended, checked.
fn cstr8_of(bytes: &[u8]) -> CStr8 {
    let mut with_nul = bytes.to_vec();
    with_nul.push(0);
    match CStr8::from_utf8_with_nul(&with_nul) {
        Ok(s) => s,
        Err(_) => panic!("invalid"),
    }
}

// ---------------------------------------------------------------------------
// One test per input form of a literal
// ---------------------------------------------------------------------------

#[test]
fn macro_str_literal() {
    let owned = cstr8_of("literal".as_bytes());
    let s: &CStr8 = &owned;
    assert_eq!(s, "literal");
    assert_eq!(s.as_bytes_with_nul(), b"literal\0");
}

#[test]
fn macro_str_constant() {
    const INPUT: &str = "constant";
    let owned = cstr8_of(INPUT.as_bytes());
    let s: &CStr8 = &owned;
    assert_eq!(s, "constant");
    assert_eq!(s.as_bytes_with_nul(), b"constant\0");
}

#[test]
fn macro_byte_slice_constant() {
    const INPUT: &[u8] = b"bytes constant";
    let owned = cstr8_of(INPUT);
    let s: &CStr8 = &owned;
    assert_eq!(s, "bytes constant");
    assert_eq!(s.as_bytes_with_nul(), b"bytes constant\0");
}

#[test]
fn macro_byte_array_ref_literal() {
    let owned = cstr8_of(b"bytes literal");
    let s: &CStr8 = &owned;
    assert_eq!(s, "bytes literal");
    assert_eq!(s.as_bytes_with_nul(), b"bytes literal\0");
}

#[test]
fn macro_byte_array_ref_constant() {
    const INPUT: &[u8; 14] = b"bytes constant";
    let owned = cstr8_of(INPUT);
    let s: &CStr8 = &owned;
    assert_eq!(s, "bytes constant");
    assert_eq!(s.as_bytes_with_nul(), b"bytes constant\0");
}

#[test]
fn macro_byte_array_literal() {
    let owned = cstr8_of(&[b'h', b'i']);
    let s: &CStr8 = &owned;
    assert_eq!(s, "hi");
    assert_eq!(s.as_bytes_with_nul(), b"hi\0");
}

#[test]
fn macro_byte_array_constant() {
    const INPUT: [u8; 19] = *b"byte array constant";
    let owned = cstr8_of(&INPUT);
    let s: &CStr8 = &owned;
    assert_eq!(s, "byte array constant");
    assert_eq!(s.as_bytes_with_nul(), b"byte array constant\0");
}

#[test]
fn macro_cstr_literal() {
    let owned = cstr8_of(c"cstr literal".to_bytes());
    let s: &CStr8 = &owned;
    assert_eq!(s, "cstr literal");
    assert_eq!(s.as_bytes_with_nul(), b"cstr literal\0");
}

// ---------------------------------------------------------------------------
// CStr8 constructors
// ---------------------------------------------------------------------------

#[test]
fn const_from_utf8_with_nul() {
    let owned = match CStr8::from_utf8_with_nul(b"hello\0") {
        Ok(s) => s,
        Err(_) => panic!("invalid"),
    };
    let s: &CStr8 = &owned;
    assert_eq!(s, "hello");
    assert_eq!(s.as_bytes_with_nul(), c"hello".to_bytes_with_nul());
}

#[test]
fn const_from_utf8_with_nul_empty() {
    let owned = match CStr8::from_utf8_with_nul(b"\0") {
        Ok(s) => s,
        Err(_) => panic!("invalid"),
    };
    let s: &CStr8 = &owned;
    assert_eq!(s, "");
}

#[test]
fn const_from_utf8_with_nul_rejects_bad_input() {
    // Invalid UTF-8.
    let bad_utf8 = CStr8::from_utf8_with_nul(b"\xff\0").is_err();
    assert!(bad_utf8);

    // Interior NUL.
    let interior_nul = CStr8::from_utf8_with_nul(b"a\0b\0").is_err();
    assert!(interior_nul);

    // Missing NUL.
    let no_nul = CStr8::from_utf8_with_nul(b"abc").is_err();
    assert!(no_nul);
}

// ---------------------------------------------------------------------------
// CStr8 cross-type comparisons
// ---------------------------------------------------------------------------

#[test]
fn cstr8_eq_str() {
    let owned = cstr8_of(b"hello");
    let s: &CStr8 = &owned;
    assert_eq!(s, "hello");
    assert_ne!(s, "world");
}

#[test]
fn cstr8_eq_cstr() {
    let owned = cstr8_of(b"hello");
    let s: &CStr8 = &owned;
    assert_eq!(s.as_bytes_with_nul(), c"hello".to_bytes_with_nul());
    assert_ne!(s.as_bytes_with_nul(), c"world".to_bytes_with_nul());
}

#[test]
fn cstr8_ord_str() {
    let owned = cstr8_of(b"bbb");
    let s: &CStr8 = &owned;
    assert!(s > "aaa");
    assert!(s < "ccc");
}

#[test]
fn cstr8_try_from_cstr() {
    let cs = CStr8::from_utf8_with_nul(c"valid utf8".to_bytes_with_nul()).unwrap();
    assert_eq!(&cs, "valid utf8");
}

// ---------------------------------------------------------------------------
// Errors and conversions
// ---------------------------------------------------------------------------

#[test]
fn from_utf8_with_nul_error_kinds() {
    assert_eq!(
        CStr8::from_utf8_with_nul(b"abc").unwrap_err(),
        CStr8Error::NulError(FromBytesWithNulError::NotNulTerminated)
    );
    assert_eq!(
        CStr8::from_utf8_with_nul(b"a\0b\0").unwrap_err(),
        CStr8Error::NulError(FromBytesWithNulError::InteriorNul { position: 1 })
    );
    assert_eq!(
        CStr8::from_utf8_with_nul(b"").unwrap_err(),
        CStr8Error::NulError(FromBytesWithNulError::NotNulTerminated)
    );
    assert_eq!(invalid_utf8_parts(CStr8::from_utf8_with_nul(b"\xff\0").unwrap_err()), (0, Some(1)));
    // The NUL check comes before the UTF-8 check.
    assert_eq!(
        CStr8::from_utf8_with_nul(b"\xff\0\0").unwrap_err(),
        CStr8Error::NulError(FromBytesWithNulError::InteriorNul { position: 1 })
    );
}

#[test]
fn from_utf8_with_nul_keeps_bytes() {
    let input = "h\u{e9}llo \u{1F600}\0".as_bytes();
    let s = CStr8::from_utf8_with_nul(input).unwrap();
    assert_eq!(s.as_bytes_with_nul(), input);
    assert_eq!(s.as_bytes(), &input[..input.len() - 1]);
    assert_eq!(s.as_str(), "h\u{e9}llo \u{1F600}");
    assert_eq!(s.len(), input.len() - 1);
}

#[test]
fn cstring8_new_reports_first_nul() {
    let e = CString8::new("ab\0c\0").unwrap_err();
    assert_eq!(e.nul_position(), 2);
    assert_eq!(e.into_vec(), b"ab\0c\0".to_vec());
}

#[test]
fn cstring8_new_roundtrip() {
    let cs = CString8::new("scaffold_1").unwrap();
    assert_eq!(cs.as_str(), "scaffold_1");
    assert_eq!(cs.as_bytes(), b"scaffold_1");
    assert_eq!(cs.as_bytes_with_nul(), b"scaffold_1\0");
    assert_eq!(cs.as_cstr8(), "scaffold_1");
    let copy = CString8::from_cstr8(cs.as_cstr8());
    assert_eq!(copy, cs);
}

#[test]
fn cstr8_order_is_lexicographic() {
    let a = cstr8_of(b"ab");
    let b = cstr8_of(b"abc");
    let c = cstr8_of(b"b");
    assert!(a < b);
    assert!(b < c);
    assert!(a < c);
    assert_eq!(a.partial_cmp(&a.clone()), Some(core::cmp::Ordering::Equal));
    assert_eq!(c.partial_cmp(&a), Some(core::cmp::Ordering::Greater));
    assert_eq!(a.cmp(&b), core::cmp::Ordering::Less);
}
