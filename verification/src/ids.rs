//! Fresh identifiers and wall-clock readings.
//!
//! Identifiers are random version-4 UUIDs held as their 128-bit big-endian
//! value; wall-clock readings are microseconds since the Unix epoch.
use vstd::prelude::*;

verus! {

/// `id` carries the version-4 and RFC 4122 variant bits of a random UUID.
pub open spec fn is_v4_uuid(id: u128) -> bool {
    &&& (id >> 76u128) & 0xfu128 == 4u128
    &&& (id >> 62u128) & 0x3u128 == 2u128
}

/// A random version-4 UUID (`uuid::Uuid::new_v4`), as its `u128` value.
///
/// The bits come from the operating system's generator, so only the version
/// and variant bits, which `new_v4` always sets, are claimed.
#[verifier::external_body]
pub(crate) fn new_id() -> (id: u128)
    ensures
        is_v4_uuid(id),
{
    uuid::Uuid::new_v4().as_u128()
}

/// A version-4 UUID is never the nil UUID.
pub proof fn lemma_v4_is_not_nil(id: u128)
    requires
        is_v4_uuid(id),
    ensures
        id != 0,
{
    assert(is_v4_uuid(id) ==> id != 0) by (bit_vector);
}

/// The current UTC time (`chrono::Utc::now`), in microseconds since the Unix
/// epoch.
///
/// The reading depends on the system clock, so nothing is claimed of it.
#[verifier::external_body]
pub(crate) fn now_micros() -> (t: i64) {
    chrono::Utc::now().timestamp_micros()
}

} // verus!

verus! {

/// The lowercase hex digit for `n` in `0..16`.
pub open spec fn hex_digit(n: int) -> char {
    if n < 10 {
        ((n + ('0' as int)) as u32) as char
    } else {
        ((n - 10 + ('a' as int)) as u32) as char
    }
}

/// The `k`-th hex digit (from the most significant) of a 128-bit value.
pub open spec fn nibble(id: u128, k: int) -> int {
    ((id >> (((31 - k) * 4) as u128)) & 0xfu128) as int
}

/// The hyphenated lowercase text of a UUID, `xxxxxxxx-xxxx-xxxx-xxxx-xxxxxxxxxxxx`,
/// its 32 hex digits from the most significant on.
pub open spec fn uuid_text(id: u128) -> Seq<char> {
    Seq::new(
        36,
        |i: int|
            if i == 8 || i == 13 || i == 18 || i == 23 {
                '-'
            } else {
                hex_digit(
                    nibble(
                        id,
                        i - (if i < 8 {
                            0int
                        } else if i < 13 {
                            1
                        } else if i < 18 {
                            2
                        } else if i < 23 {
                            3
                        } else {
                            4
                        }),
                    ),
                )
            },
    )
}

/// `uuid::Uuid::from_u128(id).to_string()`: the hyphenated lowercase form
/// that `Uuid`'s `Display` writes.
#[verifier::external_body]
pub(crate) fn id_text(id: u128) -> (s: String)
    ensures
        s@ == uuid_text(id),
{
    uuid::Uuid::from_u128(id).to_string()
}

/// The RFC 3339 text chrono writes for an instant given in microseconds
/// since the Unix epoch, or `None` when chrono cannot represent the instant.
pub uninterp spec fn rfc3339_of(micros: i64) -> Option<Seq<char>>;

/// `chrono::DateTime::from_timestamp_micros` followed by `to_rfc3339`: the
/// text depends on the instant alone.
#[verifier::external_body]
pub(crate) fn instant_text(micros: i64) -> (s: Option<String>)
    ensures
        match rfc3339_of(micros) {
            Some(t) => s matches Some(x) && x@ == t,
            None => s is None,
        },
{
    match chrono::DateTime::from_timestamp_micros(micros) {
        Some(d) => Some(d.to_rfc3339()),
        None => None,
    }
}

} // verus!
