//! The clock and the random identifiers the library draws on.
//!
//! Each item here calls an outside crate; nothing about the clock is promised,
//! and of a random identifier only its shape is.

use vstd::prelude::*;

verus! {

/// Current wall-clock time in microseconds since the Unix epoch, as
/// `chrono::Utc::now().timestamp_micros()` reports it. Nothing is promised
/// of the value: two calls may return anything.
#[verifier::external_body]
pub fn now_micros() -> (r: i64) {
    chrono::Utc::now().timestamp_micros()
}

/// Current wall-clock time in whole seconds since the Unix epoch, as
/// `chrono::Utc::now().timestamp()` reports it. Nothing is promised of the
/// value.
#[verifier::external_body]
pub fn now_secs() -> (r: i64) {
    chrono::Utc::now().timestamp()
}

/// A lowercase hexadecimal digit.
pub open spec fn is_lower_hex(c: char) -> bool {
    ('0' <= c && c <= '9') || ('a' <= c && c <= 'f')
}

/// The shape of a hyphenated lowercase UUID: 36 characters, dashes at
/// positions 8, 13, 18 and 23, lowercase hex digits elsewhere.
pub open spec fn is_uuid_text(s: Seq<char>) -> bool {
    &&& s.len() == 36
    &&& forall|i: int|
        0 <= i < 36 ==> if i == 8 || i == 13 || i == 18 || i == 23 {
            s[i] == '-'
        } else {
            is_lower_hex(#[trigger] s[i])
        }
}

/// A fresh random version-4 UUID rendered by `uuid::Uuid::new_v4().to_string()`.
/// The contract states only the text's shape (uuid's `Display` writes the
/// hyphenated lowercase form); which UUID comes back is chance.
#[verifier::external_body]
pub fn new_uuid() -> (r: String)
    ensures
        is_uuid_text(r@),
{
    uuid::Uuid::new_v4().to_string()
}

/// The first eight characters of a fresh random UUID.
pub fn uuid_prefix8() -> (r: String)
    ensures
        r@.len() == 8,
        forall|i: int| 0 <= i < 8 ==> is_lower_hex(#[trigger] r@[i]),
{
    let u = new_uuid();
    let cs = crate::text::chars_of(u.as_str());
    let p = crate::text::slice_chars(&cs, 0, 8);
    proof {
        assert forall|i: int| 0 <= i < 8 implies is_lower_hex(#[trigger] p@[i]) by {
            assert(p@[i] == u@[i]);
        }
    }
    crate::text::string_from_chars(p.as_slice())
}

} // verus!
