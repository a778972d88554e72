//! The claim set of signed tokens and the audiences they may name.

use vstd::prelude::*;

verus! {

/// The audiences that a signed token may name.
pub const ALLOWED_JWT_AUDIENCES: [&'static str; 3] = [
    "https://u.geekbang.org",
    "https://time.geekbang.org",
    "https://www.dragonflydb.io",
];

/// The claims that a signed token carries.
#[derive(Debug)]
pub struct JwtClaims {
    /// Subject.
    pub sub: String,
    /// Audience.
    pub aud: String,
    /// Expiry, in seconds since the Unix epoch.
    pub exp: i64,
}

/// Signing and verifying of claim sets; the signing itself lives with the
/// program, which owns the serialised form of the claims.
pub struct Jwt;

} // verus!
