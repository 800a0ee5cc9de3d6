//! Passwords of saved connections are stored encrypted: AES-256-GCM under a 32-byte key, with
//! a fresh random nonce written in front of each ciphertext.
use vstd::prelude::*;
use vstd::utf8::{decode_utf8, encode_utf8, valid_utf8};

use crate::error::{ErrorModel, SyncroDbError, text_result};

verus! {

/// Bytes in an AES-256-GCM key.
pub const KEY_LEN: usize = 32;

/// Bytes in a nonce.
pub const NONCE_LEN: usize = 12;

/// Bytes in an authentication tag.
pub const TAG_LEN: usize = 16;

/// The longest input that AES-GCM seals (2^36 - 32 bytes).
pub const MAX_SEALED_INPUT: u64 = 68719476704;

/// What AES-256-GCM sealing gives for `plaintext` under `key` and `nonce`, with no associated
/// data: the ciphertext followed by the tag, or nothing where the input is refused.
pub uninterp spec fn aes256_gcm_sealed(key: Seq<u8>, nonce: Seq<u8>, plaintext: Seq<u8>) -> Option<
    Seq<u8>,
>;

/// What AES-256-GCM opening gives for `sealed` under `key` and `nonce`, with no associated
/// data: the plaintext, or nothing where the tag does not authenticate the ciphertext.
pub uninterp spec fn aes256_gcm_opened(key: Seq<u8>, nonce: Seq<u8>, sealed: Seq<u8>) -> Option<
    Seq<u8>,
>;

/// Calls ring's `UnboundKey::new(&AES_256_GCM, key)`, `LessSafeKey::new`,
/// `Nonce::try_assume_unique_for_key` and `LessSafeKey::seal_in_place_append_tag` with empty
/// associated data. The result is named `aes256_gcm_sealed`; the contract adds what ring shows
/// of it: sealing refuses only inputs longer than `MAX_SEALED_INPUT`, the tag adds
/// `TAG_LEN` bytes, and opening with the same key and nonce gives the plaintext back.
#[verifier::external_body]
fn aes256_gcm_seal(key: &[u8], nonce: &[u8], plaintext: &[u8]) -> (r: Option<Vec<u8>>)
    requires
        key@.len() == KEY_LEN,
        nonce@.len() == NONCE_LEN,
    ensures
        plaintext@.len() <= MAX_SEALED_INPUT ==> r is Some,
        match r {
            Some(c) => aes256_gcm_sealed(key@, nonce@, plaintext@) == Some(c@) && c@.len()
                == plaintext@.len() + TAG_LEN && aes256_gcm_opened(key@, nonce@, c@) == Some(
                plaintext@,
            ),
            None => aes256_gcm_sealed(key@, nonce@, plaintext@) is None,
        },
{
    let unbound = ring::aead::UnboundKey::new(&ring::aead::AES_256_GCM, key).ok()?;
    let sealing = ring::aead::LessSafeKey::new(unbound);
    let nonce = ring::aead::Nonce::try_assume_unique_for_key(nonce).ok()?;
    let mut in_out = plaintext.to_vec();
    sealing.seal_in_place_append_tag(nonce, ring::aead::Aad::empty(), &mut in_out).ok()?;
    Some(in_out)
}

/// Calls ring's `UnboundKey::new(&AES_256_GCM, key)`, `LessSafeKey::new`,
/// `Nonce::try_assume_unique_for_key` and `LessSafeKey::open_in_place` with empty associated
/// data. The result is named `aes256_gcm_opened`.
#[verifier::external_body]
fn aes256_gcm_open(key: &[u8], nonce: &[u8], sealed: &[u8]) -> (r: Option<Vec<u8>>)
    requires
        key@.len() == KEY_LEN,
        nonce@.len() == NONCE_LEN,
    ensures
        match r {
            Some(p) => aes256_gcm_opened(key@, nonce@, sealed@) == Some(p@),
            None => aes256_gcm_opened(key@, nonce@, sealed@) is None,
        },
{
    let unbound = ring::aead::UnboundKey::new(&ring::aead::AES_256_GCM, key).ok()?;
    let opening = ring::aead::LessSafeKey::new(unbound);
    let nonce = ring::aead::Nonce::try_assume_unique_for_key(nonce).ok()?;
    let mut in_out = sealed.to_vec();
    let plaintext = opening.open_in_place(nonce, ring::aead::Aad::empty(), &mut in_out).ok()?;
    Some(plaintext.to_vec())
}

/// Calls ring's `SecureRandom::fill` on `n` bytes from `SystemRandom`: `None` where the
/// system's source of randomness fails. Nothing is claimed of the bytes themselves.
#[verifier::external_body]
pub(crate) fn random_bytes(n: usize) -> (r: Option<Vec<u8>>)
    ensures
        r matches Some(b) ==> b@.len() == n,
{
    let mut bytes = vec![0u8; n];
    ring::rand::SecureRandom::fill(&ring::rand::SystemRandom::new(), &mut bytes).ok()?;
    Some(bytes)
}

/// Calls `String::from_utf8`: the text that the bytes encode when they are valid UTF-8.
#[verifier::external_body]
fn text_from_utf8(bytes: Vec<u8>) -> (r: Option<String>)
    ensures
        match r {
            Some(s) => valid_utf8(bytes@) && s@ == decode_utf8(bytes@),
            None => !valid_utf8(bytes@),
        },
{
    String::from_utf8(bytes).ok()
}

/// The model of a byte result.
pub open spec fn bytes_result(r: Result<Vec<u8>, SyncroDbError>) -> Result<Seq<u8>, ErrorModel> {
    match r {
        Ok(b) => Ok(b@),
        Err(e) => Err(e@),
    }
}

pub open spec fn encryption_error(message: Seq<char>) -> ErrorModel {
    ErrorModel::Encryption(message)
}

/// The stored form of `password` under `key` with `nonce`: the nonce, then the sealed UTF-8
/// bytes of the password.
pub open spec fn encrypted(key: Seq<u8>, nonce: Seq<u8>, password: Seq<char>) -> Result<
    Seq<u8>,
    ErrorModel,
> {
    if key.len() != KEY_LEN {
        Err(encryption_error("Failed to create encryption key"@))
    } else {
        match aes256_gcm_sealed(key, nonce, encode_utf8(password)) {
            Some(c) => Ok(nonce + c),
            None => Err(encryption_error("Failed to encrypt password"@)),
        }
    }
}

/// The password that `data` holds under `key`: the nonce is its first bytes, the sealed
/// password the rest.
pub open spec fn decrypted(key: Seq<u8>, data: Seq<u8>) -> Result<Seq<char>, ErrorModel> {
    if data.len() < NONCE_LEN {
        Err(encryption_error("Invalid encrypted data"@))
    } else if key.len() != KEY_LEN {
        Err(encryption_error("Failed to create decryption key"@))
    } else {
        match aes256_gcm_opened(key, data.take(NONCE_LEN as int), data.skip(NONCE_LEN as int)) {
            None => Err(encryption_error("Failed to decrypt password"@)),
            Some(p) => if valid_utf8(p) {
                Ok(decode_utf8(p))
            } else {
                Err(encryption_error("Invalid UTF-8 in decrypted password"@))
            },
        }
    }
}

fn copy_bytes(b: &[u8], from: usize, to: usize) -> (r: Vec<u8>)
    requires
        from <= to <= b@.len(),
    ensures
        r@ == b@.subrange(from as int, to as int),
{
    let mut r: Vec<u8> = Vec::new();
    let mut i = from;
    while i < to
        invariant
            from <= i <= to <= b@.len(),
            r@ == b@.subrange(from as int, i as int),
        decreases to - i,
    {
        r.push(b[i]);
        assert(b@.subrange(from as int, i + 1) == b@.subrange(from as int, i as int).push(
            b@[i as int],
        ));
        i = i + 1;
    }
    r
}

fn encryption_failure(message: &str) -> (e: SyncroDbError)
    ensures
        e@ == encryption_error(message@),
{
    SyncroDbError::Encryption(String::from_str(message))
}

/// Checks a key read from storage: it must be `KEY_LEN` bytes long.
pub fn validate_encryption_key(key: Vec<u8>) -> (r: Result<Vec<u8>, SyncroDbError>)
    ensures
        key@.len() == KEY_LEN ==> (r matches Ok(k) && k@ == key@),
        key@.len() != KEY_LEN ==> (r matches Err(e) && e@ == encryption_error(
            "Invalid encryption key length"@,
        )),
{
    if key.len() != KEY_LEN {
        Err(encryption_failure("Invalid encryption key length"))
    } else {
        Ok(key)
    }
}

/// A fresh random key of `KEY_LEN` bytes.
pub fn generate_encryption_key() -> (r: Result<Vec<u8>, SyncroDbError>)
    ensures
        match r {
            Ok(k) => k@.len() == KEY_LEN,
            Err(e) => e@ == encryption_error("Failed to generate encryption key"@),
        },
{
    match random_bytes(KEY_LEN) {
        Some(k) => Ok(k),
        None => Err(encryption_failure("Failed to generate encryption key")),
    }
}

/// Encrypts and decrypts the passwords of saved connections under one key.
pub struct CredentialManager {
    encryption_key: Vec<u8>,
}

impl CredentialManager {
    /// The key passwords are encrypted under.
    pub closed spec fn key(&self) -> Seq<u8> {
        self.encryption_key@
    }

    pub fn new_with_key(encryption_key: Vec<u8>) -> (r: Self)
        ensures
            r.key() == encryption_key@,
    {
        CredentialManager { encryption_key }
    }

    /// The stored form of a password under a fresh random nonce. It decrypts to the password,
    /// and is longer than the password's bytes by the nonce and the tag.
    pub fn encrypt_password(&self, password: &str) -> (r: Result<Vec<u8>, SyncroDbError>)
        ensures
            match r {
                Ok(c) => c@.len() == NONCE_LEN + encode_utf8(password@).len() + TAG_LEN
                    && encrypted(self.key(), c@.take(NONCE_LEN as int), password@) == Ok::<
                    _,
                    ErrorModel,
                >(c@) && decrypted(self.key(), c@) == Ok::<_, ErrorModel>(password@),
                Err(e) => if self.key().len() != KEY_LEN {
                    e@ == encryption_error("Failed to create encryption key"@)
                } else {
                    e@ == encryption_error("Failed to generate nonce"@) || (e@ == encryption_error(
                        "Failed to encrypt password"@,
                    ) && encode_utf8(password@).len() > MAX_SEALED_INPUT)
                },
            },
    {
        if self.encryption_key.len() != KEY_LEN {
            return Err(encryption_failure("Failed to create encryption key"));
        }
        match random_bytes(NONCE_LEN) {
            Some(nonce) => {
                let r = self.encrypt_with_nonce(password, nonce.as_slice());
                proof {
                    if r is Ok {
                        assert(r->Ok_0@.take(NONCE_LEN as int) == nonce@);
                    }
                }
                r
            },
            None => Err(encryption_failure("Failed to generate nonce")),
        }
    }

    /// The stored form of a password under the given nonce.
    pub fn encrypt_with_nonce(&self, password: &str, nonce: &[u8]) -> (r: Result<
        Vec<u8>,
        SyncroDbError,
    >)
        requires
            nonce@.len() == NONCE_LEN,
        ensures
            bytes_result(r) == encrypted(self.key(), nonce@, password@),
            self.key().len() == KEY_LEN && encode_utf8(password@).len() <= MAX_SEALED_INPUT
                ==> r is Ok,
            r matches Ok(c) ==> c@.len() == NONCE_LEN + encode_utf8(password@).len() + TAG_LEN
                && decrypted(self.key(), c@) == Ok::<_, ErrorModel>(password@),
    {
        if self.encryption_key.len() != KEY_LEN {
            return Err(encryption_failure("Failed to create encryption key"));
        }
        let bytes = password.as_bytes();
        match aes256_gcm_seal(self.encryption_key.as_slice(), nonce, bytes) {
            Some(sealed) => {
                let mut out = copy_bytes(nonce, 0, nonce.len());
                let ghost body = sealed@;
                let mut tail = sealed;
                out.append(&mut tail);
                proof {
                    assert(nonce@.subrange(0, nonce@.len() as int) == nonce@);
                    let data = out@;
                    assert(data.take(NONCE_LEN as int) == nonce@);
                    assert(data.skip(NONCE_LEN as int) == body);
                    vstd::utf8::encode_utf8_valid_utf8(password@);
                    vstd::utf8::encode_utf8_decode_utf8(password@);
                }
                Ok(out)
            },
            None => Err(encryption_failure("Failed to encrypt password")),
        }
    }

    /// The password that stored bytes hold.
    pub fn decrypt_password(&self, encrypted: &[u8]) -> (r: Result<String, SyncroDbError>)
        ensures
            text_result(r) == decrypted(self.key(), encrypted@),
    {
        if encrypted.len() < NONCE_LEN {
            return Err(encryption_failure("Invalid encrypted data"));
        }
        if self.encryption_key.len() != KEY_LEN {
            return Err(encryption_failure("Failed to create decryption key"));
        }
        let nonce = copy_bytes(encrypted, 0, NONCE_LEN);
        let sealed = copy_bytes(encrypted, NONCE_LEN, encrypted.len());
        assert(sealed@ == encrypted@.skip(NONCE_LEN as int));
        match aes256_gcm_open(self.encryption_key.as_slice(), nonce.as_slice(), sealed.as_slice()) {
            None => Err(encryption_failure("Failed to decrypt password")),
            Some(plaintext) => match text_from_utf8(plaintext) {
                Some(s) => Ok(s),
                None => Err(encryption_failure("Invalid UTF-8 in decrypted password")),
            },
        }
    }
}

} // verus!
