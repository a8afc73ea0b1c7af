//! Character-set conversions, relied on from the encoding_rs crate. Each
//! conversion is a pure function of its input bytes or characters, so its
//! result is named by an uninterpreted spec function; the one fact stated
//! beside each name is ASCII transparency, which the crate documents for
//! every ASCII-compatible encoding (a borrow of the input is returned for
//! ASCII-only input).
//!
//! The length premises keep the callers away from the documented panic of
//! `decode`/`encode` when the worst-case output size overflows `usize`.

use vstd::prelude::*;

verus! {

/// The characters that `encoding_rs::WINDOWS_1251.decode` yields for the
/// given bytes.
pub uninterp spec fn cp1251_str_of(b: Seq<u8>) -> Seq<char>;

/// The characters that `encoding_rs::IBM866.decode` yields for the given
/// bytes.
pub uninterp spec fn cp866_str_of(b: Seq<u8>) -> Seq<char>;

/// The characters that `String::from_utf8_lossy` yields for the given
/// bytes.
pub uninterp spec fn utf8_lossy_str_of(b: Seq<u8>) -> Seq<char>;

/// The bytes that `encoding_rs::WINDOWS_1251.encode` yields for the given
/// characters.
pub uninterp spec fn cp1251_bytes_of(s: Seq<char>) -> Seq<u8>;

/// All bytes below 0x80.
pub open spec fn ascii_bytes(b: Seq<u8>) -> bool {
    forall|i: int| 0 <= i < b.len() ==> b[i] < 0x80
}

/// All characters below U+0080.
pub open spec fn ascii_chars(s: Seq<char>) -> bool {
    forall|i: int| 0 <= i < s.len() ==> (s[i] as u32) < 0x80
}

/// Relies on encoding_rs::WINDOWS_1251.decode: a deterministic function of
/// the whole input; ASCII-only input is returned as is, windows-1251 being
/// ASCII-compatible.
#[verifier::external_body]
pub fn cp1251_decode(b: &[u8]) -> (r: String)
    requires
        b@.len() < usize::MAX / 4,
    ensures
        r@ == cp1251_str_of(b@),
        ascii_bytes(b@) ==> r@.len() == b@.len() && (forall|i: int|
            0 <= i < b@.len() ==> r@[i] == b@[i] as char),
{
    encoding_rs::WINDOWS_1251.decode(b).0.into_owned()
}

/// Relies on encoding_rs::IBM866.decode: a deterministic function of the
/// whole input; ASCII-only input is returned as is, IBM866 being
/// ASCII-compatible.
#[verifier::external_body]
pub fn cp866_decode(b: &[u8]) -> (r: String)
    requires
        b@.len() < usize::MAX / 4,
    ensures
        r@ == cp866_str_of(b@),
        ascii_bytes(b@) ==> r@.len() == b@.len() && (forall|i: int|
            0 <= i < b@.len() ==> r@[i] == b@[i] as char),
{
    encoding_rs::IBM866.decode(b).0.into_owned()
}

/// Relies on String::from_utf8_lossy: a deterministic function of the
/// input bytes; ASCII-only input, being valid UTF-8, is returned as is.
#[verifier::external_body]
pub fn utf8_lossy_decode(b: &[u8]) -> (r: String)
    ensures
        r@ == utf8_lossy_str_of(b@),
        ascii_bytes(b@) ==> r@.len() == b@.len() && (forall|i: int|
            0 <= i < b@.len() ==> r@[i] == b@[i] as char),
{
    String::from_utf8_lossy(b).into_owned()
}

/// Relies on encoding_rs::WINDOWS_1251.encode: a deterministic function of
/// the input characters; ASCII-only input is returned as is, windows-1251
/// being ASCII-compatible.
#[verifier::external_body]
pub fn cp1251_encode(s: &str) -> (r: Vec<u8>)
    requires
        s@.len() < usize::MAX / 16,
    ensures
        r@ == cp1251_bytes_of(s@),
        ascii_chars(s@) ==> r@.len() == s@.len() && (forall|i: int|
            0 <= i < s@.len() ==> r@[i] == s@[i] as u8),
{
    encoding_rs::WINDOWS_1251.encode(s).0.into_owned()
}

} // verus!
