//! Loading and saving: deciding between the encrypted container and the
//! bare legacy format, deriving the key, sealing and opening the record
//! collection.
//!
//! The central contract is on `serialize_for_save_with`: the bytes it
//! produces load back, under the same passphrase, to exactly the
//! collection that was saved.

use vstd::prelude::*;

use crate::emit::{emit_container, emit_store};
use crate::format::{
    lemma_container_not_store, lemma_ps_container_json, lemma_ps_store_json,
    lemma_store_json_not_container, ps_container_text, ps_store_text, store_json, ContainerText,
};
use crate::parse::{e_container, e_store};
use crate::primitives::{
    aead_open, aead_open_of, aead_seal, b64_decode, b64_decode_of, b64_encode, chars_to_bytes,
    derive_key32, generate_salt, kdf_accepts, kdf_key_of, str_chars, utf8_to_string,
};
use crate::vault::{Store, StoreView};
use vstd::utf8::{decode_utf8, encode_utf8, valid_utf8};

verus! {

/// Default cost parameters: Argon2i iterations and memory in KiB.
pub const DEFAULT_ITERATIONS: u32 = 3;

pub const DEFAULT_MEMORY_KIB: u32 = 65536;

/// The decoded contents of a container document, as raw values.
pub struct ContainerParts {
    pub salt: Vec<u8>,
    pub iterations: u32,
    pub memory_kib: u32,
    pub blob: Vec<u8>,
}

#[verifier::ext_equal]
pub ghost struct ContainerView {
    pub salt: Seq<u8>,
    pub iterations: int,
    pub memory_kib: int,
    pub blob: Seq<u8>,
}

impl View for ContainerParts {
    type V = ContainerView;

    open spec fn view(&self) -> ContainerView {
        ContainerView {
            salt: self.salt@,
            iterations: self.iterations as int,
            memory_kib: self.memory_kib as int,
            blob: self.blob@,
        }
    }
}

/// What file bytes decode to as a container, if anything: a UTF-8 text of
/// container shape whose binary fields are valid base64.
pub open spec fn container_of(bytes: Seq<u8>) -> Option<ContainerView> {
    if !valid_utf8(bytes) {
        None
    } else {
        match ps_container_text(decode_utf8(bytes)) {
            None => None,
            Some(ct) => match (b64_decode_of(ct.salt_b64), b64_decode_of(ct.blob_b64)) {
                (Some(salt), Some(blob)) => Some(
                    ContainerView {
                        salt: salt,
                        iterations: ct.iterations,
                        memory_kib: ct.memory_kib,
                        blob: blob,
                    },
                ),
                _ => None,
            },
        }
    }
}

/// What file bytes parse to as a bare legacy collection, if anything.
pub open spec fn bare_of(bytes: Seq<u8>) -> Option<StoreView> {
    if !valid_utf8(bytes) {
        None
    } else {
        ps_store_text(decode_utf8(bytes))
    }
}

/// The outcome of loading file bytes.
pub enum LoadOutcome {
    /// The file held this collection, and it is well formed.
    Loaded(Store),
    /// No file, an empty file, or unreadable foreign content: start fresh.
    EmptyDefault,
    /// The file is an encrypted container that could not be opened: wrong
    /// passphrase, missing passphrase, or tampering.  Never collapsed into
    /// an empty collection.
    WrongPassphraseOrCorrupt,
    /// Key derivation itself failed (e.g. unsupported cost parameters).
    DerivationFailed,
}

#[verifier::ext_equal]
pub ghost enum LoadView {
    Loaded(StoreView),
    EmptyDefault,
    WrongPassphraseOrCorrupt,
    DerivationFailed,
}

impl View for LoadOutcome {
    type V = LoadView;

    open spec fn view(&self) -> LoadView {
        match self {
            LoadOutcome::Loaded(st) => LoadView::Loaded(st@),
            LoadOutcome::EmptyDefault => LoadView::EmptyDefault,
            LoadOutcome::WrongPassphraseOrCorrupt => LoadView::WrongPassphraseOrCorrupt,
            LoadOutcome::DerivationFailed => LoadView::DerivationFailed,
        }
    }
}

pub open spec fn pass_view(pass: Option<&Vec<u8>>) -> Option<Seq<u8>> {
    match pass {
        Some(p) => Some(p@),
        None => None,
    }
}

/// What loading returns, exactly: empty input starts fresh; a container
/// is opened under the passphrase and its contents parsed; anything else
/// is tried as the bare legacy format; unreadable content starts fresh;
/// an unopenable container is reported, never silently emptied.
/// Derivation fails exactly where `kdf_accepts` says the embedded cost
/// parameters or the passphrase are outside Argon2i's bounds.  A decrypted
/// or bare document that parses but breaks the id invariant is treated as
/// malformed and starts fresh; no file this library writes does.
pub open spec fn load_plan(bytes: Seq<u8>, pass: Option<Seq<u8>>) -> LoadView {
    if bytes.len() == 0 {
        LoadView::EmptyDefault
    } else {
        match container_of(bytes) {
            Some(c) => match pass {
                None => LoadView::WrongPassphraseOrCorrupt,
                Some(p) => {
                    if !kdf_accepts(p, c.salt, c.iterations as u32, c.memory_kib as u32) {
                        LoadView::DerivationFailed
                    } else {
                        let key = kdf_key_of(p, c.salt, c.iterations as u32, c.memory_kib as u32);
                        match aead_open_of(key, c.blob) {
                            None => LoadView::WrongPassphraseOrCorrupt,
                            Some(pt) => match bare_of(pt) {
                                Some(v) => if v.wf() {
                                    LoadView::Loaded(v)
                                } else {
                                    LoadView::EmptyDefault
                                },
                                None => LoadView::EmptyDefault,
                            },
                        }
                    }
                },
            },
            None => match bare_of(bytes) {
                Some(v) => if v.wf() {
                    LoadView::Loaded(v)
                } else {
                    LoadView::EmptyDefault
                },
                None => LoadView::EmptyDefault,
            },
        }
    }
}

/// Parse bytes as the bare legacy document.
fn bare_store(bytes: &Vec<u8>) -> (r: Option<Store>)
    ensures
        match bare_of(bytes@) {
            None => r is None,
            Some(v) => r matches Some(st) && st@ == v,
        },
{
    let st = match utf8_to_string(bytes) {
        Some(s) => s,
        None => {
            return None;
        },
    };
    let chars = str_chars(st.as_str());
    proof {
        vstd::utf8::encode_utf8_valid_utf8(st@);
        vstd::utf8::encode_utf8_decode_utf8(st@);
        assert(chars@ == decode_utf8(bytes@));
    }
    e_store(&chars)
}

/// Load a collection from file bytes, with or without a passphrase.
/// The outcome is exactly `load_plan` of the inputs: a deterministic
/// function, so equal bytes under equal passphrases always load alike.
pub fn load(bytes: &Vec<u8>, pass: Option<&Vec<u8>>) -> (r: LoadOutcome)
    ensures
        r@ == load_plan(bytes@, pass_view(pass)),
        r@ matches LoadView::Loaded(v) ==> v.wf(),
{
    if bytes.len() == 0 {
        return LoadOutcome::EmptyDefault;
    }
    let st = match utf8_to_string(bytes) {
        Some(s) => s,
        None => {
            return LoadOutcome::EmptyDefault;
        },
    };
    let chars = str_chars(st.as_str());
    proof {
        vstd::utf8::encode_utf8_valid_utf8(st@);
        vstd::utf8::encode_utf8_decode_utf8(st@);
        assert(chars@ == decode_utf8(bytes@));
    }
    match e_container(&chars) {
        Some((salt_b64, iterations, memory_kib, blob_b64)) => {
            proof {
                lemma_container_not_store(chars@);
            }
            let salt = match b64_decode(&salt_b64) {
                Some(v) => v,
                None => {
                    return LoadOutcome::EmptyDefault;
                },
            };
            let blob = match b64_decode(&blob_b64) {
                Some(v) => v,
                None => {
                    return LoadOutcome::EmptyDefault;
                },
            };
            match pass {
                None => LoadOutcome::WrongPassphraseOrCorrupt,
                Some(p) => {
                    let key = match derive_key32(p, &salt, iterations, memory_kib) {
                        Some(k) => k,
                        None => {
                            return LoadOutcome::DerivationFailed;
                        },
                    };
                    match aead_open(&key, &blob) {
                        None => LoadOutcome::WrongPassphraseOrCorrupt,
                        Some(pt) => {
                            match bare_store(&pt) {
                                Some(store) => {
                                    if store.check_wf() {
                                        LoadOutcome::Loaded(store)
                                    } else {
                                        LoadOutcome::EmptyDefault
                                    }
                                },
                                None => LoadOutcome::EmptyDefault,
                            }
                        },
                    }
                },
            }
        },
        None => {
            match e_store(&chars) {
                Some(store) => {
                    if store.check_wf() {
                        LoadOutcome::Loaded(store)
                    } else {
                        LoadOutcome::EmptyDefault
                    }
                },
                None => LoadOutcome::EmptyDefault,
            }
        },
    }
}

/// Decode file bytes as a container, exposing its raw fields.
pub fn decode_container(bytes: &Vec<u8>) -> (r: Option<ContainerParts>)
    ensures
        match container_of(bytes@) {
            None => r is None,
            Some(c) => r matches Some(p) && p@ == c,
        },
{
    let st = match utf8_to_string(bytes) {
        Some(s) => s,
        None => {
            return None;
        },
    };
    let chars = str_chars(st.as_str());
    proof {
        vstd::utf8::encode_utf8_valid_utf8(st@);
        vstd::utf8::encode_utf8_decode_utf8(st@);
        assert(chars@ == decode_utf8(bytes@));
    }
    match e_container(&chars) {
        Some((salt_b64, iterations, memory_kib, blob_b64)) => {
            let salt = match b64_decode(&salt_b64) {
                Some(v) => v,
                None => {
                    return None;
                },
            };
            let blob = match b64_decode(&blob_b64) {
                Some(v) => v,
                None => {
                    return None;
                },
            };
            let parts = ContainerParts { salt, iterations, memory_kib, blob };
            proof {
                assert(parts@ =~= container_of(bytes@).unwrap());
            }
            Some(parts)
        },
        None => None,
    }
}

/// Build the container document from raw fields.
pub fn encode_container(salt: &Vec<u8>, iterations: u32, memory_kib: u32, blob: &Vec<u8>) -> (r:
    Vec<u8>)
    ensures
        container_of(r@) == Some(
            ContainerView {
                salt: salt@,
                iterations: iterations as int,
                memory_kib: memory_kib as int,
                blob: blob@,
            },
        ),
{
    let salt_b64 = b64_encode(salt);
    let blob_b64 = b64_encode(blob);
    let mut cc: Vec<char> = Vec::new();
    emit_container(&mut cc, &salt_b64, iterations, memory_kib, &blob_b64);
    let bytes = chars_to_bytes(&cc);
    proof {
        assert(cc@ =~= crate::format::container_json(ContainerText {
            salt_b64: salt_b64@,
            iterations: iterations as int,
            memory_kib: memory_kib as int,
            blob_b64: blob_b64@,
        }));
        vstd::utf8::encode_utf8_valid_utf8(cc@);
        vstd::utf8::encode_utf8_decode_utf8(cc@);
        lemma_ps_container_json(
            ContainerText {
                salt_b64: salt_b64@,
                iterations: iterations as int,
                memory_kib: memory_kib as int,
                blob_b64: blob_b64@,
            },
        );
        assert(container_of(bytes@) =~= Some(
            ContainerView {
                salt: salt@,
                iterations: iterations as int,
                memory_kib: memory_kib as int,
                blob: blob@,
            },
        ));
    }
    bytes
}

#[derive(Debug)]
pub enum SaveError {
    DerivationFailed,
    SealFailed,
}

proof fn lemma_encode_nonempty(chars: Seq<char>)
    requires
        chars.len() > 0,
    ensures
        encode_utf8(chars).len() > 0,
{
    assert(encode_utf8(chars) == vstd::utf8::encode_scalar(chars[0] as u32) + encode_utf8(
        chars.drop_first(),
    ));
    assert(vstd::utf8::encode_scalar(chars[0] as u32).len() > 0);
}

proof fn lemma_store_json_nonempty(v: StoreView)
    ensures
        crate::format::store_json(v).len() > 0,
{
    reveal_strlit("{");
}

/// Serialize the collection for saving.  With a passphrase the result is
/// the encrypted container: a fresh random 16-byte salt, the given cost
/// parameters stored alongside, and a blob that opens under the key
/// derived from exactly this passphrase, salt and parameters to the
/// canonical serialized collection.  With no passphrase it is the bare
/// legacy text.  On success the bytes load back, under the same
/// passphrase, to exactly this collection; derivation fails exactly when
/// the passphrase or cost parameters are outside Argon2i's bounds.
pub fn serialize_for_save_with(st: &Store, pass: Option<&Vec<u8>>, iterations: u32, memory_kib:
    u32) -> (r: Result<Vec<u8>, SaveError>)
    requires
        st@.wf(),
    ensures
        r matches Ok(b) ==> load_plan(b@, pass_view(pass)) == LoadView::Loaded(st@),
        pass is None ==> r is Ok,
        r is Err ==> pass is Some,
        pass matches Some(p) ==> (r == Err::<Vec<u8>, SaveError>(SaveError::DerivationFailed) <==> !(1 <= p@.len()
            <= 0xFFFF_FFFF && iterations >= 3 && memory_kib >= 8)),
        pass matches Some(p) ==> (r matches Ok(b) ==> (container_of(b@) matches Some(c)
            && c.iterations == iterations as int && c.memory_kib == memory_kib as int
            && c.salt.len() == 16 && aead_open_of(
            kdf_key_of(p@, c.salt, iterations, memory_kib),
            c.blob,
        ) == Some(encode_utf8(store_json(st@))))),
{
    let mut chars: Vec<char> = Vec::new();
    emit_store(&mut chars, st);
    proof {
        assert(chars@ =~= crate::format::store_json(st@));
        crate::vault::lemma_view_fits(st);
        lemma_ps_store_json(st@);
        lemma_store_json_not_container(st@);
        lemma_store_json_nonempty(st@);
        lemma_encode_nonempty(chars@);
        vstd::utf8::encode_utf8_valid_utf8(chars@);
        vstd::utf8::encode_utf8_decode_utf8(chars@);
    }
    match pass {
        None => {
            let bytes = chars_to_bytes(&chars);
            proof {
                assert(bare_of(bytes@) == Some(st@));
                assert(container_of(bytes@) is None);
                assert(load_plan(bytes@, None) == LoadView::Loaded(st@));
            }
            Ok(bytes)
        },
        Some(p) => {
            let pt = chars_to_bytes(&chars);
            let salt = generate_salt();
            let key = match derive_key32(p, &salt, iterations, memory_kib) {
                Some(k) => k,
                None => {
                    return Err(SaveError::DerivationFailed);
                },
            };
            let blob = match aead_seal(&key, &pt) {
                Some(c) => c,
                None => {
                    return Err(SaveError::SealFailed);
                },
            };
            let bytes = encode_container(&salt, iterations, memory_kib, &blob);
            proof {
                assert(bytes@.len() > 0) by {
                    if bytes@.len() == 0 {
                        assert(valid_utf8(bytes@));
                        assert(decode_utf8(bytes@).len() == 0);
                        reveal_strlit("{");
                        assert(ps_container_text(decode_utf8(bytes@)) is None);
                    }
                }
                assert(bare_of(pt@) == Some(st@));
                assert(load_plan(bytes@, Some(p@)) == LoadView::Loaded(st@));
                assert(container_of(bytes@) == Some(
                    ContainerView {
                        salt: salt@,
                        iterations: iterations as int,
                        memory_kib: memory_kib as int,
                        blob: blob@,
                    },
                ));
                assert(salt@.len() == 16);
                assert(pt@ == encode_utf8(store_json(st@)));
                assert(aead_open_of(kdf_key_of(p@, salt@, iterations, memory_kib), blob@)
                    == Some(pt@));
            }
            Ok(bytes)
        },
    }
}

/// `serialize_for_save_with` under the default cost parameters.
pub fn serialize_for_save(st: &Store, pass: Option<&Vec<u8>>) -> (r: Result<Vec<u8>, SaveError>)
    requires
        st@.wf(),
    ensures
        r matches Ok(b) ==> load_plan(b@, pass_view(pass)) == LoadView::Loaded(st@),
        pass is None ==> r is Ok,
        r is Err ==> pass is Some,
        pass matches Some(p) ==> (r == Err::<Vec<u8>, SaveError>(SaveError::DerivationFailed) <==> !(1 <= p@.len()
            <= 0xFFFF_FFFF)),
        pass matches Some(p) ==> (r matches Ok(b) ==> (container_of(b@) matches Some(c)
            && c.iterations == DEFAULT_ITERATIONS as int && c.memory_kib == DEFAULT_MEMORY_KIB as int
            && c.salt.len() == 16 && aead_open_of(
            kdf_key_of(p@, c.salt, DEFAULT_ITERATIONS, DEFAULT_MEMORY_KIB),
            c.blob,
        ) == Some(encode_utf8(store_json(st@))))),
{
    serialize_for_save_with(st, pass, DEFAULT_ITERATIONS, DEFAULT_MEMORY_KIB)
}

/// Any bytes holding only the bare format, with a well-formed collection
/// in them, load to exactly that collection when no passphrase is given:
/// legacy files keep loading.
pub proof fn lemma_legacy_load(bytes: Seq<u8>, v: StoreView)
    requires
        bytes.len() > 0,
        bare_of(bytes) == Some(v),
        v.wf(),
    ensures
        load_plan(bytes, None) == LoadView::Loaded(v),
{
    if container_of(bytes) is Some {
        lemma_container_not_store(decode_utf8(bytes));
    }
}

} // verus!
