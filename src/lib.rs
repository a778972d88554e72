//! Passphrase-based sealing of text into URL-safe tokens, with the command-line
//! model and argument checks around it.

pub mod chacha;
pub mod cli;
pub mod http_serve;
pub mod jwt;
pub mod text;
pub mod utils;

pub use chacha::{ChaCha, CipherError};
pub use cli::{
    verify_file, verify_jwt_audience, verify_key, verify_path, ChaChaOpts, ChaChaSubCommand,
    HttpServeOpts, HttpSubCommand, JwtSignOpts, JwtSubCommand, JwtVerifyOpts, Opts, SubCommand,
};
pub use http_serve::HttpServe;
pub use jwt::{Jwt, JwtClaims, ALLOWED_JWT_AUDIENCES};
pub use utils::get_content;
