//! The command line as data, and the checks that its arguments go through.

use vstd::prelude::*;
use vstd::utf8::encode_utf8;

use crate::jwt::{JwtClaims, ALLOWED_JWT_AUDIENCES};
use crate::text::text_eq;
use crate::utils::names_stdin;

verus! {

/// The whole command line.
#[derive(Debug)]
pub struct Opts {
    pub cmd: SubCommand,
}

/// The command to run.
#[derive(Debug)]
pub enum SubCommand {
    /// Encrypt or decrypt text with ChaCha20-Poly1305.
    ChaCha(ChaChaSubCommand),
    /// Sign or verify a signed token.
    Jwt(JwtSubCommand),
    /// Serve a directory over HTTP.
    Http(HttpSubCommand),
}

/// Sealing or opening text.
#[derive(Debug)]
pub enum ChaChaSubCommand {
    Encrypt(ChaChaOpts),
    Decrypt(ChaChaOpts),
}

/// Where the input comes from (`-` for standard input) and the passphrase.
#[derive(Debug)]
pub struct ChaChaOpts {
    pub input: String,
    pub key: String,
}

/// Signing or verifying a token.
#[derive(Debug)]
pub enum JwtSubCommand {
    Sign(JwtSignOpts),
    Verify(JwtVerifyOpts),
}

/// The secret and the claims to sign.
#[derive(Debug)]
pub struct JwtSignOpts {
    pub key: String,
    pub aud: String,
    pub sub: String,
    pub exp: i64,
}

/// The secret and the token to verify.
#[derive(Debug)]
pub struct JwtVerifyOpts {
    pub key: String,
    pub token: String,
}

/// Serving files.
#[derive(Debug)]
pub enum HttpSubCommand {
    Serve(HttpServeOpts),
}

/// The directory to serve and the port to listen on.
#[derive(Debug)]
pub struct HttpServeOpts {
    pub dir: String,
    pub port: u16,
}

impl JwtSignOpts {
    /// The claim set that these options ask to sign.
    pub fn into_claims(self) -> (r: JwtClaims)
        ensures
            r.sub@ == self.sub@,
            r.aud@ == self.aud@,
            r.exp == self.exp,
    {
        JwtClaims { sub: self.sub, aud: self.aud, exp: self.exp }
    }
}

/// Shortest passphrase accepted for signing, in bytes.
pub const MIN_KEY_LEN: usize = 8;

/// An input argument: `-` (standard input) or the name of a file that exists.
pub fn verify_file(filename: &str, exists: bool) -> (r: Result<String, &'static str>)
    ensures
        r is Ok <==> (names_stdin(filename@) || exists),
        r is Ok ==> r->Ok_0@ == filename@,
        r is Err ==> r->Err_0@ == "File does not exist"@,
{
    if text_eq(filename, "-") || exists {
        Ok(filename.to_owned())
    } else {
        Err("File does not exist")
    }
}

/// A directory argument: accepted when it names an existing directory.
pub fn verify_path(path: &str, is_dir: bool) -> (r: Result<String, &'static str>)
    ensures
        r is Ok <==> is_dir,
        r is Ok ==> r->Ok_0@ == path@,
        r is Err ==> r->Err_0@ == "Path does not exist or is not a directory"@,
{
    if is_dir {
        Ok(path.to_owned())
    } else {
        Err("Path does not exist or is not a directory")
    }
}

/// A signing secret: at least `MIN_KEY_LEN` bytes long.
pub fn verify_key(key: &str) -> (r: Result<String, String>)
    ensures
        r is Ok <==> encode_utf8(key@).len() >= MIN_KEY_LEN,
        r is Ok ==> r->Ok_0@ == key@,
        r is Err ==> r->Err_0@ == "Key must be at least 8 characters long"@,
{
    if key.as_bytes().len() >= MIN_KEY_LEN {
        Ok(key.to_owned())
    } else {
        Err("Key must be at least 8 characters long".to_owned())
    }
}

/// Whether `aud` is one of `ALLOWED_JWT_AUDIENCES`.
pub open spec fn is_allowed_audience(aud: Seq<char>) -> bool {
    exists|i: int| 0 <= i < ALLOWED_JWT_AUDIENCES@.len() && aud == #[trigger] ALLOWED_JWT_AUDIENCES@[i]@
}

/// An audience argument: one of `ALLOWED_JWT_AUDIENCES`.
pub fn verify_jwt_audience(aud: &str) -> (r: Result<String, &'static str>)
    ensures
        r is Ok <==> is_allowed_audience(aud@),
        r is Ok ==> r->Ok_0@ == aud@,
        r is Err ==> r->Err_0@ == "Invalid audience"@,
{
    let allowed = ALLOWED_JWT_AUDIENCES;
    let mut i: usize = 0;
    while i < allowed.len()
        invariant
            allowed@ == ALLOWED_JWT_AUDIENCES@,
            i <= allowed@.len(),
            forall|j: int| 0 <= j < i ==> aud@ != #[trigger] allowed@[j]@,
        decreases allowed@.len() - i,
    {
        if text_eq(aud, allowed[i]) {
            return Ok(aud.to_owned());
        }
        i = i + 1;
    }
    Err("Invalid audience")
}

} // verus!
