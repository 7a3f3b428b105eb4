//! Strings that are both valid UTF-8 and NUL-terminated, and a compact,
//! small-string-optimised owner for them.

use vstd::prelude::*;

mod std_calls;
pub mod order;
pub mod cstr8;
pub mod compact;
pub mod laws;

verus! {
}

pub use compact::{CompactCStr8, MAX_INLINE_LEN};
pub use cstr8::{CStr8, CStr8Error, CString8, FromBytesWithNulError, NulError, Utf8Error};
