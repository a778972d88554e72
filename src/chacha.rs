//! Sealing text under a passphrase: key derivation, ChaCha20-Poly1305 sealing,
//! and the URL-safe base64 token that carries `nonce ‖ ciphertext ‖ tag`.

use base64::Engine;
use chacha20poly1305::aead::rand_core::RngCore;
use chacha20poly1305::aead::{Aead, KeyInit, OsRng};
use chacha20poly1305::ChaCha20Poly1305;
use sha2::Digest;
use vstd::prelude::*;
use vstd::utf8::{decode_utf8, encode_utf8, valid_utf8};

use crate::text::{
    is_white_space, lemma_trim_no_white_space, lemma_trim_trailing_white_space, string_from_utf8,
    trim_spec, trim_text,
};

verus! {

/// Length of the nonce that starts every envelope.
pub const NONCE_LEN: usize = 12;

/// Length of the authentication tag that ends every envelope.
pub const TAG_LEN: usize = 16;

/// Why sealing or opening a token failed.
#[derive(Debug, Clone, Copy, PartialEq, Eq, Structural)]
pub enum CipherError {
    /// The token is not URL-safe base64 without padding.
    DecodeFailure,
    /// The decoded token is shorter than a nonce.
    MalformedEnvelope,
    /// The tag did not verify: a wrong key or an altered token.
    AuthenticationFailure,
    /// The opened bytes are not UTF-8 text.
    EncodingFailure,
    /// The cipher refused to seal the plaintext.
    EncryptionFailure,
}

/// The SHA-256 digest of `b`.
pub uninterp spec fn sha256_of(b: Seq<u8>) -> Seq<u8>;

/// ChaCha20-Poly1305 ciphertext with its tag appended, with no associated data.
pub uninterp spec fn aead_seal(key: Seq<u8>, nonce: Seq<u8>, plaintext: Seq<u8>) -> Seq<u8>;

/// ChaCha20-Poly1305 opening with no associated data: the plaintext when the tag verifies.
pub uninterp spec fn aead_open(key: Seq<u8>, nonce: Seq<u8>, sealed: Seq<u8>) -> Option<Seq<u8>>;


/// The bytes that URL-safe base64 text without padding stands for, if it is valid.
pub uninterp spec fn base64url_decode(s: Seq<char>) -> Option<Seq<u8>>;

/// A symbol of the URL-safe base64 alphabet.
pub open spec fn is_base64url_symbol(c: char) -> bool {
    ('A' <= c && c <= 'Z') || ('a' <= c && c <= 'z') || ('0' <= c && c <= '9') || c == '-'
        || c == '_'
}

/// The URL-safe base64 alphabet, in order of value.
pub open spec fn base64url_alphabet() -> Seq<char> {
    seq![
        'A', 'B', 'C', 'D', 'E', 'F', 'G', 'H', 'I', 'J', 'K', 'L', 'M', 'N', 'O', 'P', 'Q',
        'R', 'S', 'T', 'U', 'V', 'W', 'X', 'Y', 'Z', 'a', 'b', 'c', 'd', 'e', 'f', 'g', 'h',
        'i', 'j', 'k', 'l', 'm', 'n', 'o', 'p', 'q', 'r', 's', 't', 'u', 'v', 'w', 'x', 'y',
        'z', '0', '1', '2', '3', '4', '5', '6', '7', '8', '9', '-', '_',
    ]
}

/// The symbol for a six-bit value.
pub open spec fn base64url_symbol(v: int) -> char {
    base64url_alphabet()[v]
}

/// URL-safe base64 text of `b`, without padding (RFC 4648, section 5): each
/// group of three bytes becomes four symbols of six bits each; a last group of
/// one or two bytes becomes two or three symbols, its spare low bits zero.
pub open spec fn base64url_encode(b: Seq<u8>) -> Seq<char>
    decreases b.len(),
{
    if b.len() == 0 {
        Seq::empty()
    } else if b.len() == 1 {
        seq![base64url_symbol((b[0] as int) / 4), base64url_symbol(((b[0] as int) % 4) * 16)]
    } else if b.len() == 2 {
        seq![
            base64url_symbol((b[0] as int) / 4),
            base64url_symbol(((b[0] as int) % 4) * 16 + (b[1] as int) / 16),
            base64url_symbol(((b[1] as int) % 16) * 4),
        ]
    } else {
        seq![
            base64url_symbol((b[0] as int) / 4),
            base64url_symbol(((b[0] as int) % 4) * 16 + (b[1] as int) / 16),
            base64url_symbol(((b[1] as int) % 16) * 4 + (b[2] as int) / 64),
            base64url_symbol((b[2] as int) % 64),
        ] + base64url_encode(b.skip(3))
    }
}

/// Every symbol of the alphabet is a URL-safe base64 symbol.
proof fn lemma_alphabet_symbols(v: int)
    requires
        0 <= v < 64,
    ensures
        is_base64url_symbol(base64url_symbol(v)),
{
    let a = base64url_alphabet();
    assert(forall|i: int| 0 <= i < 64 ==> is_base64url_symbol(#[trigger] a[i]));
}

/// Encoded text has the unpadded length and only URL-safe symbols.
proof fn lemma_encode_shape(b: Seq<u8>)
    ensures
        base64url_encode(b).len() == base64url_len(b.len()),
        forall|i: int|
            0 <= i < base64url_encode(b).len() ==> is_base64url_symbol(
                #[trigger] base64url_encode(b)[i],
            ),
    decreases b.len(),
{
    let e = base64url_encode(b);
    if b.len() == 0 {
    } else if b.len() == 1 {
        lemma_alphabet_symbols((b[0] as int) / 4);
        lemma_alphabet_symbols(((b[0] as int) % 4) * 16);
    } else if b.len() == 2 {
        lemma_alphabet_symbols((b[0] as int) / 4);
        lemma_alphabet_symbols(((b[0] as int) % 4) * 16 + (b[1] as int) / 16);
        lemma_alphabet_symbols(((b[1] as int) % 16) * 4);
    } else {
        let rest = b.skip(3);
        lemma_encode_shape(rest);
        lemma_alphabet_symbols((b[0] as int) / 4);
        lemma_alphabet_symbols(((b[0] as int) % 4) * 16 + (b[1] as int) / 16);
        lemma_alphabet_symbols(((b[1] as int) % 16) * 4 + (b[2] as int) / 64);
        lemma_alphabet_symbols((b[2] as int) % 64);
        let n = b.len();
        assert(n / 3 == rest.len() / 3 + 1 && n % 3 == rest.len() % 3) by {
            assert(n == rest.len() + 3);
        }
        let head = seq![
            base64url_symbol((b[0] as int) / 4),
            base64url_symbol(((b[0] as int) % 4) * 16 + (b[1] as int) / 16),
            base64url_symbol(((b[1] as int) % 16) * 4 + (b[2] as int) / 64),
            base64url_symbol((b[2] as int) % 64),
        ];
        assert(e == head + base64url_encode(rest));
        assert forall|i: int| 0 <= i < e.len() implies is_base64url_symbol(#[trigger] e[i]) by {
            if i >= 4 {
                assert(e[i] == base64url_encode(rest)[i - 4]);
            }
        }
    }
}

/// The key that a passphrase stands for: the digest of its trimmed UTF-8 bytes.
pub open spec fn derived_key(passphrase: Seq<char>) -> Seq<u8> {
    sha256_of(encode_utf8(trim_spec(passphrase)))
}

/// Longest plaintext the cipher can seal or open: its keystream starts at block 1
/// of a 32-bit block counter, which leaves `u32::MAX - 1` blocks of 64 bytes.
pub const MAX_PLAINTEXT_LEN: u64 = 64 * 0xffff_fffe;

/// Plaintexts that the cipher can seal.
pub open spec fn sealable(plaintext: Seq<u8>) -> bool {
    plaintext.len() <= MAX_PLAINTEXT_LEN
}

/// Length of unpadded base64 text for `n` bytes: four symbols for each whole
/// group of three bytes, then two for one byte left over and three for two.
pub open spec fn base64url_len(n: nat) -> nat {
    let rest: nat = if n % 3 == 0 {
        0
    } else if n % 3 == 1 {
        2
    } else {
        3
    };
    (n / 3) * 4 + rest
}

/// The envelope `nonce ‖ ciphertext ‖ tag`.
pub open spec fn envelope(key: Seq<u8>, nonce: Seq<u8>, plaintext: Seq<u8>) -> Seq<u8> {
    nonce + aead_seal(key, nonce, plaintext)
}

/// The token that carries an envelope.
pub open spec fn sealed_token(key: Seq<u8>, nonce: Seq<u8>, plaintext: Seq<u8>) -> Seq<char> {
    base64url_encode(envelope(key, nonce, plaintext))
}

/// `token` is the sealing of `plaintext` under `key` and `nonce`, and has the
/// token's shape: URL-safe symbols only, no padding, decoding to the envelope of
/// `nonce ‖ ciphertext ‖ tag`.
pub open spec fn is_sealed_token(
    key: Seq<u8>,
    nonce: Seq<u8>,
    plaintext: Seq<u8>,
    token: Seq<char>,
) -> bool {
    let env = envelope(key, nonce, plaintext);
    &&& nonce.len() == NONCE_LEN
    &&& sealable(plaintext)
    &&& token == sealed_token(key, nonce, plaintext)
    &&& env.len() == NONCE_LEN + plaintext.len() + TAG_LEN
    &&& base64url_decode(token) == Some(env)
    &&& token.len() == base64url_len(env.len())
    &&& forall|i: int| 0 <= i < token.len() ==> is_base64url_symbol(#[trigger] token[i])
    &&& aead_open(key, nonce, aead_seal(key, nonce, plaintext)) == Some(plaintext)
}

/// Opened bytes read as text.
pub open spec fn opened_text(plaintext: Seq<u8>) -> Result<Seq<char>, CipherError> {
    if valid_utf8(plaintext) {
        Ok(decode_utf8(plaintext))
    } else {
        Err(CipherError::EncodingFailure)
    }
}

/// The cipher may be asked to open `bytes`: a nonce is there, and what follows
/// it is no longer than the longest plaintext with its tag.
pub open spec fn envelope_in_range(bytes: Seq<u8>) -> bool {
    NONCE_LEN <= bytes.len() && bytes.len() - NONCE_LEN <= MAX_PLAINTEXT_LEN + TAG_LEN
}

/// The outcome of opening the decoded envelope `bytes`, where `opened` is what
/// the cipher gave back for it (`None` when it refused, or was not asked).
pub open spec fn open_outcome(bytes: Seq<u8>, opened: Option<Seq<u8>>) -> Result<
    Seq<char>,
    CipherError,
> {
    if bytes.len() < NONCE_LEN {
        Err(CipherError::MalformedEnvelope)
    } else if !envelope_in_range(bytes) {
        Err(CipherError::AuthenticationFailure)
    } else {
        match opened {
            None => Err(CipherError::AuthenticationFailure),
            Some(plaintext) => opened_text(plaintext),
        }
    }
}

/// Opening a decoded envelope: split off the nonce, verify, read as text.
pub open spec fn open_envelope(key: Seq<u8>, bytes: Seq<u8>) -> Result<Seq<char>, CipherError> {
    open_outcome(bytes, aead_open(key, bytes.take(NONCE_LEN as int), bytes.skip(NONCE_LEN as int)))
}

/// The byte view of an optional buffer.
pub open spec fn bytes_view(o: Option<Vec<u8>>) -> Option<Seq<u8>> {
    match o {
        Some(v) => Some(v@),
        None => None,
    }
}

/// Opening a token: trim it, decode it, then open the envelope.
pub open spec fn open_token(key: Seq<u8>, token: Seq<char>) -> Result<Seq<char>, CipherError> {
    match base64url_decode(trim_spec(token)) {
        None => Err(CipherError::DecodeFailure),
        Some(bytes) => open_envelope(key, bytes),
    }
}

/// The character view of a textual result.
pub open spec fn text_result(r: Result<String, CipherError>) -> Result<Seq<char>, CipherError> {
    match r {
        Ok(s) => Ok(s@),
        Err(e) => Err(e),
    }
}

#[verifier::external_type_specification]
#[verifier::external_body]
pub struct ExAeadError(chacha20poly1305::aead::Error);

#[verifier::external_type_specification]
#[verifier::external_body]
pub struct ExDecodeError(base64::DecodeError);

/// Relies on `sha2::Sha256::digest`: the 32-byte SHA-256 digest of the input.
#[verifier::external_body]
fn sha256(b: &[u8]) -> (r: [u8; 32])
    ensures
        r@ == sha256_of(b@),
{
    sha2::Sha256::digest(b).into()
}

/// Relies on `RngCore::try_fill_bytes` of `OsRng`: twelve bytes from the
/// operating system's secure random source, or `None` when that source fails.
#[verifier::external_body]
fn random_nonce() -> (r: Option<[u8; 12]>) {
    let mut nonce = [0u8; 12];
    match OsRng.try_fill_bytes(&mut nonce) {
        Ok(()) => Some(nonce),
        Err(_) => None,
    }
}

/// Relies on `Aead::encrypt` of `ChaCha20Poly1305` with no associated data: for a
/// plaintext of at most `MAX_PLAINTEXT_LEN` bytes it succeeds, returning the
/// ciphertext followed by the 16-byte tag, which `decrypt` under the same key and
/// nonce opens to the plaintext again. (Longer ones are refused or run the
/// keystream out and panic.)
#[verifier::external_body]
fn chacha_encrypt(key: &[u8; 32], nonce: &[u8; 12], plaintext: &[u8]) -> (r: Result<
    Vec<u8>,
    chacha20poly1305::aead::Error,
>)
    requires
        plaintext@.len() <= MAX_PLAINTEXT_LEN,
        plaintext@.len() + 16 <= usize::MAX,
    ensures
        r is Ok,
        r is Ok ==> r->Ok_0@ == aead_seal(key@, nonce@, plaintext@),
        r is Ok ==> r->Ok_0@.len() == plaintext@.len() + 16,
        r is Ok ==> aead_open(key@, nonce@, r->Ok_0@) == Some(plaintext@),
{
    ChaCha20Poly1305::new(key.into()).encrypt(nonce.into(), plaintext)
}

/// Relies on `Aead::decrypt` of `ChaCha20Poly1305` with no associated data: the
/// plaintext when the trailing tag verifies under the key and nonce, else an
/// error. Inputs longer than a tag past `MAX_PLAINTEXT_LEN` are left out: some of
/// them run the keystream out and panic once the tag has verified.
#[verifier::external_body]
fn chacha_decrypt(key: &[u8; 32], nonce: &[u8], sealed: &[u8]) -> (r: Result<
    Vec<u8>,
    chacha20poly1305::aead::Error,
>)
    requires
        nonce@.len() == 12,
        sealed@.len() <= MAX_PLAINTEXT_LEN + 16,
    ensures
        r is Ok <==> aead_open(key@, nonce@, sealed@) is Some,
        r is Ok ==> r->Ok_0@ == aead_open(key@, nonce@, sealed@)->Some_0,
{
    ChaCha20Poly1305::new(key.into()).decrypt(nonce.into(), sealed)
}

/// Relies on `Engine::encode` of `base64::engine::general_purpose::URL_SAFE_NO_PAD`:
/// the unpadded URL-safe base64 text of the input, which `decode` of the same
/// engine turns back into the input; it panics only when the encoded length
/// overflows `usize`.
#[verifier::external_body]
fn encode_base64url(b: &[u8]) -> (r: String)
    requires
        (b@.len() / 3) * 4 + 3 <= usize::MAX,
    ensures
        r@ == base64url_encode(b@),
        base64url_decode(r@) == Some(b@),
{
    base64::engine::general_purpose::URL_SAFE_NO_PAD.encode(b)
}

/// Relies on `Engine::decode` of `base64::engine::general_purpose::URL_SAFE_NO_PAD`:
/// the bytes, or an error when the text is not canonical unpadded URL-safe base64.
#[verifier::external_body]
fn decode_base64url(s: &str) -> (r: Result<Vec<u8>, base64::DecodeError>)
    ensures
        r is Ok <==> base64url_decode(s@) is Some,
        r is Ok ==> r->Ok_0@ == base64url_decode(s@)->Some_0,
{
    base64::engine::general_purpose::URL_SAFE_NO_PAD.decode(s)
}

/// The length of the token for a plaintext of `len` bytes fits in `usize`.
pub open spec fn token_fits(len: nat) -> bool {
    ((len + NONCE_LEN + TAG_LEN) / 3) * 4 + 3 <= usize::MAX
}

/// Derives the 32-byte key of a passphrase: the SHA-256 digest of its UTF-8
/// bytes, after white space at both ends is trimmed. No salt, no iteration.
pub fn derive_key(passphrase: &str) -> (r: [u8; 32])
    ensures
        r@ == derived_key(passphrase@),
{
    let trimmed = trim_text(passphrase);
    sha256(trimmed.as_bytes())
}

/// Seals `plaintext` under `key` with the given nonce and encodes the envelope.
pub fn seal(key: &[u8; 32], nonce: &[u8; 12], plaintext: &[u8]) -> (r: Result<String, CipherError>)
    requires
        token_fits(plaintext@.len()),
    ensures
        r is Ok <==> sealable(plaintext@),
        r is Err ==> r == Err::<String, CipherError>(CipherError::EncryptionFailure),
        r is Ok ==> is_sealed_token(key@, nonce@, plaintext@, r->Ok_0@),
        r is Ok ==> open_token(key@, r->Ok_0@) == opened_text(plaintext@),
{
    if plaintext.len() as u64 > MAX_PLAINTEXT_LEN {
        return Err(CipherError::EncryptionFailure);
    }
    match chacha_encrypt(key, nonce, plaintext) {
        Ok(mut sealed) => {
            let mut bytes: Vec<u8> = Vec::new();
            bytes.extend_from_slice(nonce.as_slice());
            bytes.append(&mut sealed);
            let token = encode_base64url(bytes.as_slice());
            proof {
                assert(bytes@ =~= envelope(key@, nonce@, plaintext@));
                lemma_encode_shape(bytes@);
                lemma_sealed_token_opens(key@, nonce@, plaintext@, token@);
            }
            Ok(token)
        },
        Err(_) => Err(CipherError::EncryptionFailure),
    }
}

/// Tokens never hold white space, so trimming leaves them as they are.
proof fn lemma_token_is_trimmed(token: Seq<char>)
    requires
        forall|i: int| 0 <= i < token.len() ==> is_base64url_symbol(#[trigger] token[i]),
    ensures
        trim_spec(token) == token,
{
    assert forall|i: int| 0 <= i < token.len() implies !is_white_space(#[trigger] token[i]) by {
        assert(is_base64url_symbol(token[i]));
    }
    lemma_trim_no_white_space(token);
}

/// Opens a sealed token's envelope again under the key and nonce it was sealed with.
proof fn lemma_sealed_token_opens(key: Seq<u8>, nonce: Seq<u8>, plaintext: Seq<u8>, token: Seq<char>)
    requires
        is_sealed_token(key, nonce, plaintext, token),
    ensures
        open_token(key, token) == opened_text(plaintext),
{
    let env = envelope(key, nonce, plaintext);
    lemma_token_is_trimmed(token);
    assert(env.take(NONCE_LEN as int) =~= nonce);
    assert(env.skip(NONCE_LEN as int) =~= aead_seal(key, nonce, plaintext));
}

/// Seals `plaintext` under `key` with a fresh random nonce. Fails with
/// `EncryptionFailure` when the plaintext is too long, or when no nonce could be
/// drawn from the operating system.
pub fn encrypt(key: &[u8; 32], plaintext: &[u8]) -> (r: Result<String, CipherError>)
    requires
        token_fits(plaintext@.len()),
    ensures
        r is Ok ==> sealable(plaintext@),
        r is Err ==> r == Err::<String, CipherError>(CipherError::EncryptionFailure),
        r is Ok ==> exists|nonce: Seq<u8>| #[trigger]
            is_sealed_token(key@, nonce, plaintext@, r->Ok_0@),
        r is Ok ==> open_token(key@, r->Ok_0@) == opened_text(plaintext@),
{
    match random_nonce() {
        Some(nonce) => seal(key, &nonce, plaintext),
        None => Err(CipherError::EncryptionFailure),
    }
}

/// Opens a token sealed under `key`: trims it, decodes it, splits off the nonce,
/// verifies the tag and reads the plaintext as UTF-8 text.
pub fn decrypt(key: &[u8; 32], token: &str) -> (r: Result<String, CipherError>)
    ensures
        text_result(r) == open_token(key@, token@),
{
    let text = trim_text(token);
    let bytes = match decode_base64url(text) {
        Ok(bytes) => bytes,
        Err(_) => return Err(CipherError::DecodeFailure),
    };
    let mut opened: Option<Vec<u8>> = None;
    if bytes.len() >= NONCE_LEN && (bytes.len() - NONCE_LEN) as u64 <= MAX_PLAINTEXT_LEN
        + TAG_LEN as u64 {
        let (nonce, sealed) = bytes.as_slice().split_at(NONCE_LEN);
        opened = match chacha_decrypt(key, nonce, sealed) {
            Ok(plaintext) => Some(plaintext),
            Err(_) => None,
        };
    }
    open_with(bytes.as_slice(), opened)
}

/// Finishes opening the decoded envelope `bytes`, given what the cipher gave
/// back for it: rejects a missing nonce or an overlong envelope, a refusal by the
/// cipher, and plaintext that is not UTF-8.
pub fn open_with(bytes: &[u8], opened: Option<Vec<u8>>) -> (r: Result<String, CipherError>)
    ensures
        text_result(r) == open_outcome(bytes@, bytes_view(opened)),
{
    if bytes.len() < NONCE_LEN {
        return Err(CipherError::MalformedEnvelope);
    }
    if (bytes.len() - NONCE_LEN) as u64 > MAX_PLAINTEXT_LEN + TAG_LEN as u64 {
        return Err(CipherError::AuthenticationFailure);
    }
    match opened {
        None => Err(CipherError::AuthenticationFailure),
        Some(plaintext) => match string_from_utf8(plaintext) {
            Some(s) => Ok(s),
            None => Err(CipherError::EncodingFailure),
        },
    }
}

/// Sealing and opening keyed by a passphrase.
pub struct ChaCha;

impl ChaCha {
    /// Seals the bytes `input` under the key derived from `user_key`, with a
    /// fresh random nonce; fails as `encrypt` does.
    pub fn process_encrypt(user_key: &str, input: &[u8]) -> (r: Result<String, CipherError>)
        requires
            token_fits(input@.len()),
        ensures
            r is Ok ==> sealable(input@),
            r is Err ==> r == Err::<String, CipherError>(CipherError::EncryptionFailure),
            r is Ok ==> exists|nonce: Seq<u8>| #[trigger]
                is_sealed_token(derived_key(user_key@), nonce, input@, r->Ok_0@),
            r is Ok ==> open_token(derived_key(user_key@), r->Ok_0@) == opened_text(input@),
    {
        let key = derive_key(user_key);
        encrypt(&key, input)
    }

    /// Opens `token` with the key derived from `user_key`.
    pub fn process_decrypt(user_key: &str, token: &str) -> (r: Result<String, CipherError>)
        ensures
            text_result(r) == open_token(derived_key(user_key@), token@),
    {
        let key = derive_key(user_key);
        decrypt(&key, token)
    }
}

/// Round trip: a token that sealed `plaintext` under the key of `passphrase`
/// opens under that key to the plaintext read as text, which is the plaintext
/// itself whenever it is UTF-8.
pub proof fn lemma_round_trip(
    passphrase: Seq<char>,
    nonce: Seq<u8>,
    plaintext: Seq<u8>,
    token: Seq<char>,
)
    requires
        is_sealed_token(derived_key(passphrase), nonce, plaintext, token),
    ensures
        open_token(derived_key(passphrase), token) == opened_text(plaintext),
        valid_utf8(plaintext) ==> open_token(derived_key(passphrase), token) == Ok::<
            Seq<char>,
            CipherError,
        >(decode_utf8(plaintext)),
{
    lemma_sealed_token_opens(derived_key(passphrase), nonce, plaintext, token);
}

/// Passphrases that are equal once trimmed derive the same key.
pub proof fn lemma_equal_passphrases_same_key(p1: Seq<char>, p2: Seq<char>)
    requires
        trim_spec(p1) == trim_spec(p2),
    ensures
        derived_key(p1) == derived_key(p2),
{
}

/// A token followed by a newline opens exactly as the token alone.
pub proof fn lemma_trailing_newline_ignored(key: Seq<u8>, token: Seq<char>)
    ensures
        open_token(key, token.push('\n')) == open_token(key, token),
{
    lemma_trim_trailing_white_space(token, '\n');
}

/// A token whose envelope the cipher does not open under `key` (the tag fails
/// to verify, as it does under a wrong key or after any change to the ciphertext
/// or tag) fails with `AuthenticationFailure` and yields no text. That the cipher
/// rejects such envelopes is the hypothesis, not a conclusion.
pub proof fn lemma_rejected_envelope_fails_authentication(
    key: Seq<u8>,
    token: Seq<char>,
    bytes: Seq<u8>,
)
    requires
        base64url_decode(trim_spec(token)) == Some(bytes),
        bytes.len() >= NONCE_LEN,
        aead_open(key, bytes.take(NONCE_LEN as int), bytes.skip(NONCE_LEN as int)) is None,
    ensures
        open_token(key, token) == Err::<Seq<char>, CipherError>(CipherError::AuthenticationFailure),
{
}

/// Text that is not URL-safe base64 fails to decode, and a decoded token shorter
/// than a nonce is a malformed envelope; neither reaches the cipher.
pub proof fn lemma_malformed_rejected(key: Seq<u8>, token: Seq<char>)
    ensures
        base64url_decode(trim_spec(token)) is None ==> open_token(key, token) == Err::<
            Seq<char>,
            CipherError,
        >(CipherError::DecodeFailure),
        base64url_decode(trim_spec(token)) matches Some(b) && b.len() < NONCE_LEN ==> open_token(
            key,
            token,
        ) == Err::<Seq<char>, CipherError>(CipherError::MalformedEnvelope),
{
}

} // verus!
