use vstd::prelude::*;

/// The backing file's format: one JSON array of record objects, with a
/// proved round trip between writing and reading.
pub mod codec;
/// Front end over the repository: add a record as it arrives, look one
/// up by identifier.
pub mod controller;
/// The request and response shapes used at the boundary.
pub mod dto;
/// JSON string literals: escaping, unescaping, and their round trip.
pub mod escape;
/// The identifier source.
pub mod idgen;
/// The user collection: create, find, update, and the file text.
pub mod repository;
/// The session-local list the interactive driver shows.
pub mod store;
/// Characters, hexadecimal digits, and string building blocks.
pub mod text;
/// The create-user operation.
pub mod usecase;
/// The canonical hyphenated text of an identifier.
pub mod uuid_text;
/// The clock and the RFC 3339 timestamp text.
pub mod time;
/// The domain record and its invariants.
pub mod user;

verus! {

/// Latest timestamp the library stores: 9999-12-31T23:59:59.999 UTC,
/// in milliseconds since the Unix epoch.
pub const MAX_TS_MILLIS: i64 = 253402300799999;

/// A timestamp the library is willing to store and persist.
pub open spec fn valid_ts(t: int) -> bool {
    0 <= t <= MAX_TS_MILLIS
}

/// Clamps an arbitrary clock reading into the storable range.
pub fn clamp_ts(t: i64) -> (r: i64)
    ensures
        valid_ts(r as int),
        valid_ts(t as int) ==> r == t,
{
    if t < 0 {
        0
    } else if t > MAX_TS_MILLIS {
        MAX_TS_MILLIS
    } else {
        t
    }
}

} // verus!
