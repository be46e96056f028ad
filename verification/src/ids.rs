//! Identifiers and clock readings, which come from `uuid` and `chrono`.
use vstd::prelude::*;

verus! {

pub open spec fn is_lower_hex(c: char) -> bool {
    (48 <= (c as u32) && (c as u32) <= 57) || (97 <= (c as u32) && (c as u32) <= 102)
}

/// The hyphenated lower-case text of a UUID: `xxxxxxxx-xxxx-xxxx-xxxx-xxxxxxxxxxxx`.
pub open spec fn is_uuid_text(s: Seq<char>) -> bool {
    &&& s.len() == 36
    &&& forall|i: int|
        0 <= i < 36 ==> if i == 8 || i == 13 || i == 18 || i == 23 {
            #[trigger] s[i] == '-'
        } else {
            is_lower_hex(s[i])
        }
}

/// Calls `uuid::Uuid::new_v4` and formats the result with `Display`. The
/// contract claims only the shape of the text, which uuid's hyphenated
/// formatting fixes; which random UUID comes back is left open.
#[verifier::external_body]
pub fn uuid_v4_text() -> (r: String)
    ensures
        is_uuid_text(r@),
{
    uuid::Uuid::new_v4().to_string()
}

/// Seconds since the Unix epoch, from `chrono::Utc::now().timestamp()`.
/// Nothing is claimed of the reading.
#[verifier::external_body]
pub fn now_epoch() -> i64 {
    chrono::Utc::now().timestamp()
}

/// Milliseconds since the Unix epoch, from
/// `chrono::Utc::now().timestamp_millis()`. Nothing is claimed of the reading.
#[verifier::external_body]
pub fn now_millis() -> i64 {
    chrono::Utc::now().timestamp_millis()
}

} // verus!
