//! Trusted wrappers around the standard library and the cryptographic
//! crates.  Each wrapper's contract states only what the wrapped
//! function's source or documentation plainly shows.

use base64::Engine;
use vstd::prelude::*;

verus! {

/// What base64 decoding (standard alphabet, canonical padding) returns
/// for a text, if anything; it depends on the text alone.
pub uninterp spec fn b64_decode_of(s: Seq<char>) -> Option<Seq<u8>>;

/// What Argon2i key derivation returns for these inputs; it depends on
/// them alone.
pub uninterp spec fn kdf_key_of(pass: Seq<u8>, salt: Seq<u8>, iterations: u32, memory_kib: u32) -> Seq<u8>;

/// The inputs orion's Argon2i key derivation accepts: a non-empty
/// password of at most 2^32 - 1 bytes, a salt of 8 to 2^32 - 1 bytes, at
/// least 3 iterations and at least 8 KiB of memory.  Derivation fails
/// exactly outside these bounds; nothing environmental decides it.
pub open spec fn kdf_accepts(pass: Seq<u8>, salt: Seq<u8>, iterations: u32, memory_kib: u32) -> bool {
    &&& 1 <= pass.len() <= 0xFFFF_FFFF
    &&& 8 <= salt.len() <= 0xFFFF_FFFF
    &&& iterations >= 3
    &&& memory_kib >= 8
}

/// What authenticated decryption returns for a key and a blob; it depends
/// on them alone.
pub uninterp spec fn aead_open_of(key: Seq<u8>, blob: Seq<u8>) -> Option<Seq<u8>>;

/// Relies on str::chars: it yields exactly the characters of the string,
/// in order.
#[verifier::external_body]
pub(crate) fn str_chars(s: &str) -> (r: Vec<char>)
    ensures
        r@ == s@,
{
    s.chars().collect()
}

/// Relies on String's FromIterator<char>: the built string holds exactly
/// these characters, in order.
#[verifier::external_body]
pub(crate) fn chars_string(v: &Vec<char>) -> (r: String)
    ensures
        r@ == v@,
{
    v.iter().collect()
}

/// The UTF-8 bytes of a character sequence; verified against vstd's
/// specification of `str::as_bytes`.
pub(crate) fn chars_to_bytes(v: &Vec<char>) -> (r: Vec<u8>)
    ensures
        r@ == vstd::utf8::encode_utf8(v@),
{
    let st = chars_string(v);
    let b = st.as_str().as_bytes();
    vstd::slice::slice_to_vec(b)
}

/// Relies on String::from_utf8: it succeeds exactly on valid UTF-8, and
/// the returned string is the one those bytes encode.
#[verifier::external_body]
pub(crate) fn utf8_to_string(b: &Vec<u8>) -> (r: Option<String>)
    ensures
        match r {
            Some(st) => vstd::utf8::encode_utf8(st@) == b@,
            None => !vstd::utf8::valid_utf8(b@),
        },
{
    String::from_utf8(b.clone()).ok()
}

/// Relies on base64's STANDARD engine encode: decoding the result with
/// the same engine gives the input bytes back.
#[verifier::external_body]
pub(crate) fn b64_encode(b: &Vec<u8>) -> (r: Vec<char>)
    ensures
        b64_decode_of(r@) == Some(b@),
{
    base64::engine::general_purpose::STANDARD.encode(b).chars().collect()
}

/// Relies on base64's STANDARD engine decode: a deterministic function of
/// the text, failing on anything that is not canonical base64.
#[verifier::external_body]
pub(crate) fn b64_decode(s: &Vec<char>) -> (r: Option<Vec<u8>>)
    ensures
        match r {
            Some(v) => b64_decode_of(s@) == Some(v@),
            None => b64_decode_of(s@) is None,
        },
{
    let st: String = s.iter().collect();
    base64::engine::general_purpose::STANDARD.decode(st.as_str()).ok()
}

/// Relies on orion::kdf::derive_key (Argon2i): it succeeds exactly on
/// the inputs `kdf_accepts` names, and the 32-byte key is then a
/// deterministic function of password, salt and cost parameters.
#[verifier::external_body]
pub(crate) fn derive_key32(pass: &Vec<u8>, salt: &Vec<u8>, iterations: u32, memory_kib: u32) -> (r:
    Option<Vec<u8>>)
    ensures
        r is Some <==> kdf_accepts(pass@, salt@, iterations, memory_kib),
        r matches Some(k) ==> k@ == kdf_key_of(pass@, salt@, iterations, memory_kib) && k@.len()
            == 32,
{
    let password = orion::kdf::Password::from_slice(pass).ok()?;
    let salt_t = orion::kdf::Salt::from_slice(salt).ok()?;
    let dk = orion::kdf::derive_key(&password, &salt_t, iterations, memory_kib, 32).ok()?;
    Some(dk.unprotected_as_bytes().to_vec())
}

/// Relies on orion::aead::seal (XChaCha20-Poly1305): whatever nonce was
/// drawn, opening the sealed blob under the same key gives the plaintext
/// back.
///
/// orion draws the nonce by unwrapping the operating system's random
/// generator, so this call panics if that generator fails; no input
/// reaches a panic otherwise, and orion offers no non-panicking path.
#[verifier::external_body]
pub(crate) fn aead_seal(key: &Vec<u8>, pt: &Vec<u8>) -> (r: Option<Vec<u8>>)
    requires
        key@.len() == 32,
        pt@.len() >= 1,
    ensures
        r matches Some(c) ==> aead_open_of(key@, c@) == Some(pt@),
{
    let sk = orion::aead::SecretKey::from_slice(key).ok()?;
    orion::aead::seal(&sk, pt).ok()
}

/// Relies on orion::aead::open: authenticated decryption of the blob
/// under the key, failing closed on any mismatch or corruption.
#[verifier::external_body]
pub(crate) fn aead_open(key: &Vec<u8>, blob: &Vec<u8>) -> (r: Option<Vec<u8>>)
    requires
        key@.len() == 32,
    ensures
        match r {
            Some(p) => aead_open_of(key@, blob@) == Some(p@),
            None => aead_open_of(key@, blob@) is None,
        },
{
    let sk = orion::aead::SecretKey::from_slice(key).ok()?;
    orion::aead::open(&sk, blob).ok()
}

/// Relies on orion::kdf::Salt::default: a fresh random salt of 16 bytes.
///
/// Like sealing, it unwraps the operating system's random generator and
/// panics if that generator fails; orion offers no non-panicking path.
#[verifier::external_body]
pub(crate) fn generate_salt() -> (r: Vec<u8>)
    ensures
        r@.len() == 16,
{
    orion::kdf::Salt::default().as_ref().to_vec()
}

} // verus!
