//! Key derivation and authenticated encryption.
//!
//! The key is derived with Argon2id (version 0x13) from the master password,
//! the vault's salt and its cost parameters. The entries are sealed with
//! AES-256-GCM, with the encoded header as associated data.
use crate::error::ClipassError;
use crate::header::{KdfParams, NONCE_SIZE, SALT_SIZE};
use aes_gcm::aead::{Aead, Payload};
use aes_gcm::{Aes256Gcm, KeyInit};
use rand::RngCore;
use vstd::prelude::*;
use vstd::string::{StringExecFns, StringSliceAdditionalSpecFns};
use zeroize::Zeroize;

verus! {

/// The length in bytes of a derived key.
pub const KEY_SIZE: usize = 32;

/// The largest message that AES-GCM accepts, in bytes.
pub const P_MAX: u64 = 0x10_0000_0000;

/// The largest associated data that AES-GCM accepts, in bytes.
pub const A_MAX: u64 = 0x10_0000_0000;

#[verifier::external_type_specification]
#[verifier::external_body]
pub struct ExAeadError(aes_gcm::Error);

/// The 32-byte Argon2id (version 0x13) output for a password, a salt and the
/// memory, time and lane costs.
pub uninterp spec fn argon2id_key(password: Seq<u8>, salt: Seq<u8>, m_cost: u32, t_cost: u32, p_cost: u32) -> Seq<u8>;

/// The AES-256-GCM ciphertext, tag appended, of `msg` under `key` and `nonce`,
/// authenticating `aad`.
pub uninterp spec fn aes256gcm_seal(key: Seq<u8>, nonce: Seq<u8>, msg: Seq<u8>, aad: Seq<u8>) -> Seq<u8>;

/// The plaintext of `ct` under `key` and `nonce` with associated data `aad`,
/// or none where the tag does not verify.
pub uninterp spec fn aes256gcm_open(key: Seq<u8>, nonce: Seq<u8>, ct: Seq<u8>, aad: Seq<u8>) -> Option<Seq<u8>>;

/// Argon2 accepts these costs: at least 8 KiB of memory for each lane, at
/// least one pass, and between 1 and 2^24 - 1 lanes.
pub open spec fn kdf_params_valid(k: KdfParams) -> bool {
    &&& k.memory_cost >= 8
    &&& k.memory_cost as int >= 8 * k.parallelism as int
    &&& k.time_cost >= 1
    &&& 1 <= k.parallelism <= 0xff_ffff
}

/// A key can be derived from this password with these costs.
pub open spec fn kdf_usable(password: Seq<u8>, k: KdfParams) -> bool {
    kdf_params_valid(k) && password.len() <= 0xffff_ffff
}

/// The key that the password, salt and costs give.
pub open spec fn key_for(password: Seq<u8>, salt: Seq<u8>, k: KdfParams) -> Seq<u8> {
    argon2id_key(password, salt, k.memory_cost, k.time_cost, k.parallelism)
}

/// Relies on argon2's `Params::new` and `Argon2::hash_password_into` with
/// Argon2id, version 0x13 and a 32-byte output. `Params::new` accepts the costs
/// that `kdf_params_valid` admits; `hash_password_into` then fails only on the
/// lengths of the output, the salt (8 bytes at least) and the password (at
/// most 2^32 - 1 bytes), all in range here. The output depends on the inputs
/// alone.
#[verifier::external_body]
fn argon2id_hash(password: &[u8], salt: &[u8], m_cost: u32, t_cost: u32, p_cost: u32) -> (r: Result<Vec<u8>, argon2::Error>)
    requires
        kdf_usable(password@, (KdfParams { memory_cost: m_cost, time_cost: t_cost, parallelism: p_cost })),
        salt@.len() == SALT_SIZE,
    ensures
        r is Ok,
        r matches Ok(k) ==> k@ == argon2id_key(password@, salt@, m_cost, t_cost, p_cost),
        r matches Ok(k) ==> k@.len() == KEY_SIZE,
{
    let params = argon2::Params::new(m_cost, t_cost, p_cost, None)?;
    let argon2 = argon2::Argon2::new(argon2::Algorithm::Argon2id, argon2::Version::V0x13, params);
    let mut out = vec![0u8; 32];
    argon2.hash_password_into(password, salt, &mut out)?;
    Ok(out)
}

#[verifier::external_type_specification]
#[verifier::external_body]
pub struct ExArgon2Error(argon2::Error);

/// Relies on aes-gcm's `Aes256Gcm::encrypt` with a `Payload`: it fails only
/// where the message or the associated data is over 2^36 bytes, and its output
/// depends on its inputs alone.
#[verifier::external_body]
fn aes_gcm_encrypt(key: &[u8], nonce: &[u8], msg: &[u8], aad: &[u8]) -> (r: Result<Vec<u8>, aes_gcm::Error>)
    requires
        key@.len() == KEY_SIZE,
        nonce@.len() == NONCE_SIZE,
    ensures
        r is Ok <==> (msg@.len() <= P_MAX && aad@.len() <= A_MAX),
        r matches Ok(c) ==> c@ == aes256gcm_seal(key@, nonce@, msg@, aad@),
{
    let cipher = Aes256Gcm::new(aes_gcm::Key::<Aes256Gcm>::from_slice(key));
    cipher.encrypt(aes_gcm::Nonce::from_slice(nonce), Payload { msg, aad })
}

/// Relies on aes-gcm's `Aes256Gcm::decrypt` with a `Payload`: it returns the
/// plaintext where the tag verifies, which it does for what `encrypt` gave
/// under the same key, nonce and associated data. The result depends on the
/// inputs alone.
#[verifier::external_body]
fn aes_gcm_decrypt(key: &[u8], nonce: &[u8], ct: &[u8], aad: &[u8]) -> (r: Result<Vec<u8>, aes_gcm::Error>)
    requires
        key@.len() == KEY_SIZE,
        nonce@.len() == NONCE_SIZE,
    ensures
        r is Ok <==> aes256gcm_open(key@, nonce@, ct@, aad@) is Some,
        r matches Ok(p) ==> aes256gcm_open(key@, nonce@, ct@, aad@) == Some(p@),
        forall|m: Seq<u8>| #![trigger aes256gcm_seal(key@, nonce@, m, aad@)]
            (m.len() <= P_MAX && aad@.len() <= A_MAX && ct@ == aes256gcm_seal(key@, nonce@, m, aad@))
                ==> (r matches Ok(p) ==> p@ == m),
        forall|m: Seq<u8>| #![trigger aes256gcm_seal(key@, nonce@, m, aad@)]
            (m.len() <= P_MAX && aad@.len() <= A_MAX && ct@ == aes256gcm_seal(key@, nonce@, m, aad@))
                ==> r is Ok,
{
    let cipher = Aes256Gcm::new(aes_gcm::Key::<Aes256Gcm>::from_slice(key));
    cipher.decrypt(aes_gcm::Nonce::from_slice(nonce), Payload { msg: ct, aad })
}

/// Relies on zeroize's `Zeroize` for `Vec<u8>`: it overwrites every byte with
/// zero, spare capacity included, then clears the vector.
#[verifier::external_body]
pub(crate) fn wipe(bytes: &mut Vec<u8>)
    ensures
        final(bytes)@.len() == 0,
    opens_invariants none
    no_unwind
{
    bytes.zeroize();
}

/// Relies on rand's `thread_rng` and `RngCore::fill_bytes`: `n` bytes from a
/// cryptographically secure generator.
#[verifier::external_body]
pub(crate) fn random_bytes(n: usize) -> (r: Vec<u8>)
    ensures
        r@.len() == n,
{
    let mut bytes = vec![0u8; n];
    rand::thread_rng().fill_bytes(&mut bytes);
    bytes
}

/// A fresh random nonce, to be used for one encryption only.
pub fn generate_nonce() -> (r: Vec<u8>)
    ensures
        r@.len() == NONCE_SIZE,
{
    random_bytes(NONCE_SIZE)
}

/// A fresh random salt.
pub fn generate_salt() -> (r: Vec<u8>)
    ensures
        r@.len() == SALT_SIZE,
{
    random_bytes(SALT_SIZE)
}

/// A 256-bit symmetric key. Its bytes are overwritten with zeros when it is
/// dropped.
pub struct Key {
    bytes: Vec<u8>,
}

impl View for Key {
    type V = Seq<u8>;

    closed spec fn view(&self) -> Seq<u8> {
        self.bytes@
    }
}

impl Drop for Key {
    fn drop(&mut self)
        opens_invariants none
        no_unwind
    {
        wipe(&mut self.bytes);
    }
}

/// Derives the key for `password` from `salt` and the costs `kdf`. Fails with
/// `CryptoError` where Argon2 refuses the costs or the password's length.
pub fn derive_key(password: &str, salt: &Vec<u8>, kdf: KdfParams) -> (r: Result<Key, ClipassError>)
    requires
        salt@.len() == SALT_SIZE,
    ensures
        r is Ok <==> kdf_usable(password.spec_bytes(), kdf),
        r matches Ok(k) ==> k@ == key_for(password.spec_bytes(), salt@, kdf) && k@.len() == KEY_SIZE,
        r matches Err(e) ==> e is CryptoError,
{
    let pw = password.as_bytes();
    if !(kdf.memory_cost >= 8 && kdf.memory_cost as u64 >= 8 * kdf.parallelism as u64
        && kdf.time_cost >= 1 && 1 <= kdf.parallelism && kdf.parallelism <= 0xff_ffff
        && pw.len() as u64 <= 0xffff_ffff) {
        return Err(ClipassError::CryptoError(String::from_str("invalid key derivation parameters")));
    }
    match argon2id_hash(pw, salt.as_slice(), kdf.memory_cost, kdf.time_cost, kdf.parallelism) {
        Ok(bytes) => Ok(Key { bytes }),
        Err(_) => Err(ClipassError::CryptoError(String::from_str("key derivation failed"))),
    }
}

/// Seals `plaintext` under `key` and `nonce`, authenticating `aad`. Fails with
/// `CryptoError` where the plaintext or the associated data is over 2^36
/// bytes.
pub fn encrypt_data(key: &Key, nonce: &Vec<u8>, plaintext: &Vec<u8>, aad: &Vec<u8>) -> (r: Result<
    Vec<u8>,
    ClipassError,
>)
    requires
        key@.len() == KEY_SIZE,
        nonce@.len() == NONCE_SIZE,
    ensures
        r is Ok <==> (plaintext@.len() <= P_MAX && aad@.len() <= A_MAX),
        r matches Ok(c) ==> c@ == aes256gcm_seal(key@, nonce@, plaintext@, aad@),
        r matches Err(e) ==> e is CryptoError,
{
    match aes_gcm_encrypt(key.bytes.as_slice(), nonce.as_slice(), plaintext.as_slice(), aad.as_slice()) {
        Ok(c) => Ok(c),
        Err(_) => Err(ClipassError::CryptoError(String::from_str("encryption failed"))),
    }
}

/// Opens `ciphertext` under `key` and `nonce` with associated data `aad`.
/// Fails with `CryptoError` where the tag does not verify: a wrong key and
/// altered bytes are not told apart.
pub fn decrypt_data(key: &Key, nonce: &Vec<u8>, ciphertext: &[u8], aad: &[u8]) -> (r: Result<
    Vec<u8>,
    ClipassError,
>)
    requires
        key@.len() == KEY_SIZE,
        nonce@.len() == NONCE_SIZE,
    ensures
        match aes256gcm_open(key@, nonce@, ciphertext@, aad@) {
            Some(p) => r matches Ok(q) && q@ == p,
            None => r matches Err(e) && e is CryptoError,
        },
        forall|m: Seq<u8>| #![trigger aes256gcm_seal(key@, nonce@, m, aad@)]
            (m.len() <= P_MAX && aad@.len() <= A_MAX && ciphertext@ == aes256gcm_seal(key@, nonce@, m, aad@))
                ==> (r matches Ok(p) && p@ == m),
{
    match aes_gcm_decrypt(key.bytes.as_slice(), nonce.as_slice(), ciphertext, aad) {
        Ok(p) => Ok(p),
        Err(_) => Err(ClipassError::CryptoError(String::from_str("authentication failed"))),
    }
}

} // verus!
