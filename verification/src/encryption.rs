//! Password encryption for saved connection profiles.
//!
//! A password is sealed with AES-256-GCM under a key that is derived from
//! the machine's identity, so that a blob can be opened only on the machine
//! and account that made it. The blob is the base64 text of the nonce
//! followed by the ciphertext with its tag.
//!
//! The cipher, the hash and the encoding are those of outside crates. What
//! this module proves is stated over names for their results: that a blob
//! is laid out as said, that what is sealed opens to itself, and which
//! inputs are refused for which reason.

use vstd::prelude::*;
use vstd::string::*;
use vstd::utf8::{decode_utf8, encode_utf8, encode_utf8_decode_utf8, encode_utf8_valid_utf8, valid_utf8};

verus! {

/// The length of the nonce in bytes.
pub const NONCE_LEN: usize = 12;

/// The length of the authentication tag in bytes.
pub const TAG_LEN: usize = 16;

/// The most bytes that the cipher seals at once: 2^36.
pub const MAX_PLAINTEXT_LEN: u64 = 0x10_0000_0000;

/// The error of the base64 decoder.
#[verifier::external_type_specification]
#[verifier::external_body]
pub struct ExDecodeError(base64::DecodeError);

/// The error of the cipher.
#[verifier::external_type_specification]
#[verifier::external_body]
pub struct ExCipherError(aes_gcm::Error);

/// The error of the conversion from bytes to a string.
#[verifier::external_type_specification]
#[verifier::external_body]
pub struct ExFromUtf8Error(std::string::FromUtf8Error);

/// The SHA-256 digest of `data`.
pub uninterp spec fn sha256(data: Seq<u8>) -> Seq<u8>;

/// The standard base64 text of `data`, with padding.
pub uninterp spec fn base64_text(data: Seq<u8>) -> Seq<char>;

/// The bytes that the standard base64 text `text` stands for, if it is
/// such a text.
pub uninterp spec fn base64_bytes(text: Seq<char>) -> Option<Seq<u8>>;

/// The AES-256-GCM ciphertext of `plaintext` under `key` and `nonce`,
/// without associated data: the encrypted bytes followed by the tag.
pub uninterp spec fn sealed(key: Seq<u8>, nonce: Seq<u8>, plaintext: Seq<u8>) -> Seq<u8>;

/// The plaintext that AES-256-GCM gives for `ciphertext` under `key` and
/// `nonce`, if the tag is the right one.
pub uninterp spec fn opened(key: Seq<u8>, nonce: Seq<u8>, ciphertext: Seq<u8>) -> Option<Seq<u8>>;

/// Why a password could not be encrypted or a blob not be decrypted.
pub enum CryptoError {
    /// The password is longer than the cipher seals at once; the text is
    /// the cipher's error.
    Sealing(String),
    /// The blob would be longer than a text of this machine can be encoded.
    TooLong,
    /// The blob is no base64 text; the text is the decoder's error.
    Encoding(String),
    /// The blob is too short to hold a nonce and a tag.
    InvalidData,
    /// The tag does not match: the blob was made under another key, or
    /// changed. The text is the cipher's error.
    Authentication(String),
    /// What was sealed is no text; the text is the conversion's error.
    NotText(String),
}

/// The kinds of [`CryptoError`].
#[derive(Clone, Copy, Debug, PartialEq, Eq, Structural)]
pub enum Refusal {
    Sealing,
    TooLong,
    Encoding,
    InvalidData,
    Authentication,
    NotText,
}

impl CryptoError {
    /// The kind of this error.
    pub open spec fn kind(&self) -> Refusal {
        match self {
            CryptoError::Sealing(_) => Refusal::Sealing,
            CryptoError::TooLong => Refusal::TooLong,
            CryptoError::Encoding(_) => Refusal::Encoding,
            CryptoError::InvalidData => Refusal::InvalidData,
            CryptoError::Authentication(_) => Refusal::Authentication,
            CryptoError::NotText(_) => Refusal::NotText,
        }
    }

    /// The text of this error as it is shown.
    pub open spec fn text(&self) -> Seq<char> {
        match self {
            CryptoError::Sealing(detail) => detail@,
            CryptoError::TooLong => "Password too long"@,
            CryptoError::Encoding(detail) => detail@,
            CryptoError::InvalidData => "Invalid encrypted data"@,
            CryptoError::Authentication(detail) => detail@,
            CryptoError::NotText(detail) => detail@,
        }
    }

    /// The text of this error as it is shown: the outside error's own text
    /// where there is one.
    pub fn message(self) -> (r: String)
        ensures
            r@ == self.text(),
    {
        match self {
            CryptoError::Sealing(detail) => detail,
            CryptoError::TooLong => "Password too long".to_owned(),
            CryptoError::Encoding(detail) => detail,
            CryptoError::InvalidData => "Invalid encrypted data".to_owned(),
            CryptoError::Authentication(detail) => detail,
            CryptoError::NotText(detail) => detail,
        }
    }
}

/// The text that the key is derived from.
pub open spec fn key_material(host: Seq<char>, user: Seq<char>) -> Seq<char> {
    "SqlPlanForDummies:"@ + host + ":"@ + user
}

/// The key of the account `user` on the machine `host`.
pub open spec fn key_for(host: Seq<char>, user: Seq<char>) -> Seq<u8> {
    sha256(encode_utf8(key_material(host, user)))
}

/// The blob for `password` under `key` and `nonce`.
pub open spec fn sealed_blob(key: Seq<u8>, nonce: Seq<u8>, password: Seq<char>) -> Seq<char> {
    base64_text(nonce + sealed(key, nonce, encode_utf8(password)))
}

/// The nonce that a blob carries in front.
pub open spec fn carried_nonce(blob: Seq<char>) -> Option<Seq<u8>> {
    match base64_bytes(blob) {
        Some(bytes) => if bytes.len() >= NONCE_LEN {
            Some(bytes.take(NONCE_LEN as int))
        } else {
            None
        },
        None => None,
    }
}

/// What decrypting `blob` under `key` gives: the password, or the reason
/// why there is none.
pub open spec fn decryption(key: Seq<u8>, blob: Seq<char>) -> Result<Seq<char>, Refusal> {
    match base64_bytes(blob) {
        None => Err(Refusal::Encoding),
        Some(bytes) => if bytes.len() < NONCE_LEN + TAG_LEN {
            Err(Refusal::InvalidData)
        } else {
            match opened(
                key,
                bytes.take(NONCE_LEN as int),
                bytes.skip(NONCE_LEN as int),
            ) {
                None => Err(Refusal::Authentication),
                Some(plain) => if valid_utf8(plain) {
                    Ok(decode_utf8(plain))
                } else {
                    Err(Refusal::NotText)
                },
            }
        },
    }
}

/// What a call gave, without the texts of the outside errors.
pub open spec fn outcome(r: Result<String, CryptoError>) -> Result<Seq<char>, Refusal> {
    match r {
        Ok(s) => Ok(s@),
        Err(e) => Err(e.kind()),
    }
}

/// The password in a result, or nothing where the call failed.
pub open spec fn shown(r: Result<String, String>) -> Option<Seq<char>> {
    match r {
        Ok(s) => Some(s@),
        Err(_) => None,
    }
}

/// The password that decrypting `blob` under `key` gives, or nothing where
/// it is refused.
pub open spec fn shown_decryption(key: Seq<u8>, blob: Seq<char>) -> Option<Seq<char>> {
    match decryption(key, blob) {
        Ok(password) => Some(password),
        Err(_) => None,
    }
}

/// Blobs that carry different nonces are different.
pub proof fn lemma_fresh_nonce_fresh_blob(first: Seq<char>, second: Seq<char>)
    requires
        carried_nonce(first) is Some,
        carried_nonce(first) != carried_nonce(second),
    ensures
        first != second,
{
}

/// The name of this machine, empty where it cannot be told:
/// `hostname::get`, which asks the operating system.
#[verifier::external_body]
fn machine_name() -> String {
    hostname::get().unwrap_or_default().to_string_lossy().to_string()
}

/// The name of the account that runs the program: `whoami::username`,
/// which asks the operating system.
#[verifier::external_body]
fn account_name() -> String {
    whoami::username()
}

/// `Digest::digest` of `sha2::Sha256`: the SHA-256 digest of `data`, which
/// is 32 bytes long.
#[verifier::external_body]
fn digest(data: &[u8]) -> (r: [u8; 32])
    ensures
        r@ == sha256(data@),
{
    <sha2::Sha256 as sha2::Digest>::digest(data).into()
}

/// Twelve bytes from `rand::thread_rng`, by `Rng::fill`. Nothing is
/// known of them but their number.
#[verifier::external_body]
fn fresh_nonce() -> [u8; 12] {
    let mut nonce = [0u8; 12];
    rand::Rng::fill(&mut rand::thread_rng(), &mut nonce);
    nonce
}

/// `Aead::encrypt` of `aes_gcm::Aes256Gcm`, without associated data. It
/// fails exactly for a plaintext of more than 2^36 bytes. The ciphertext
/// is as long as the plaintext and a tag of 16 bytes, and opens to the
/// plaintext under the same key and nonce.
#[verifier::external_body]
fn seal(key: &[u8; 32], nonce: &[u8], plaintext: &[u8]) -> (r: Result<Vec<u8>, aes_gcm::Error>)
    requires
        nonce@.len() == NONCE_LEN,
    ensures
        r is Ok <==> plaintext@.len() <= MAX_PLAINTEXT_LEN,
        r matches Ok(ciphertext) ==> ciphertext@ == sealed(key@, nonce@, plaintext@),
        r matches Ok(ciphertext) ==> ciphertext@.len() == plaintext@.len() + TAG_LEN,
        r matches Ok(ciphertext) ==> opened(key@, nonce@, ciphertext@) == Some(plaintext@),
{
    let cipher = <aes_gcm::Aes256Gcm as aes_gcm::KeyInit>::new(aes_gcm::Key::<aes_gcm::Aes256Gcm>::from_slice(key));
    aes_gcm::aead::Aead::encrypt(&cipher, aes_gcm::Nonce::from_slice(nonce), plaintext)
}

/// `Aead::decrypt` of `aes_gcm::Aes256Gcm`, without associated data. It
/// gives the plaintext where the tag matches and fails where it does not.
#[verifier::external_body]
fn open(key: &[u8; 32], nonce: &[u8], ciphertext: &[u8]) -> (r: Result<Vec<u8>, aes_gcm::Error>)
    requires
        nonce@.len() == NONCE_LEN,
    ensures
        match r {
            Ok(plaintext) => opened(key@, nonce@, ciphertext@) == Some(plaintext@),
            Err(_) => opened(key@, nonce@, ciphertext@) is None,
        },
{
    let cipher = <aes_gcm::Aes256Gcm as aes_gcm::KeyInit>::new(aes_gcm::Key::<aes_gcm::Aes256Gcm>::from_slice(key));
    aes_gcm::aead::Aead::decrypt(&cipher, aes_gcm::Nonce::from_slice(nonce), ciphertext)
}

/// `Engine::encode` of `base64::engine::general_purpose::STANDARD`: the
/// base64 text of `data`, which decodes to `data` again. The text is a
/// third longer than `data`, so `data` must leave room for that.
#[verifier::external_body]
fn encode(data: &[u8]) -> (r: String)
    requires
        data@.len() <= usize::MAX / 2,
    ensures
        r@ == base64_text(data@),
        base64_bytes(r@) == Some(data@),
{
    base64::Engine::encode(&base64::engine::general_purpose::STANDARD, data)
}

/// `Engine::decode` of `base64::engine::general_purpose::STANDARD`: the
/// bytes that `text` stands for, or the decoder's error where it is no
/// base64 text.
#[verifier::external_body]
fn decode(text: &str) -> (r: Result<Vec<u8>, base64::DecodeError>)
    ensures
        match r {
            Ok(bytes) => base64_bytes(text@) == Some(bytes@),
            Err(_) => base64_bytes(text@) is None,
        },
{
    base64::Engine::decode(&base64::engine::general_purpose::STANDARD, text)
}

/// `String::from_utf8` of the standard library: the string that `bytes`
/// encode, or an error where they are no UTF-8.
#[verifier::external_body]
fn text_of(bytes: Vec<u8>) -> (r: Result<String, std::string::FromUtf8Error>)
    ensures
        match r {
            Ok(s) => valid_utf8(bytes@) && s@ == decode_utf8(bytes@),
            Err(_) => !valid_utf8(bytes@),
        },
{
    String::from_utf8(bytes)
}

/// The text of the decoder's error: its `Display`.
#[verifier::external_body]
fn decode_error_text(e: &base64::DecodeError) -> String {
    e.to_string()
}

/// The text of the cipher's error: its `Display`.
#[verifier::external_body]
fn cipher_error_text(e: &aes_gcm::Error) -> String {
    e.to_string()
}

/// The text of the conversion's error: its `Display`.
#[verifier::external_body]
fn utf8_error_text(e: &std::string::FromUtf8Error) -> String {
    e.to_string()
}

/// The key of the account `user` on the machine `host`: the SHA-256 digest
/// of the key material.
pub fn derive_key_for(host: &str, user: &str) -> (key: [u8; 32])
    ensures
        key@ == key_for(host@, user@),
{
    let mut material = String::new();
    material.append("SqlPlanForDummies:");
    material.append(host);
    material.append(":");
    material.append(user);
    assert(material@ =~= key_material(host@, user@));
    digest(material.as_str().as_bytes())
}

/// The key of this machine and account.
pub fn derive_key() -> (key: [u8; 32])
    ensures
        exists|host: Seq<char>, user: Seq<char>| key@ == #[trigger] key_for(host, user),
{
    let host = machine_name();
    let user = account_name();
    let key = derive_key_for(host.as_str(), user.as_str());
    assert(key@ == key_for(host@, user@));
    key
}

/// Appends `bytes` to `out`.
fn append_bytes(out: &mut Vec<u8>, bytes: &[u8])
    ensures
        final(out)@ == old(out)@ + bytes@,
{
    let mut i: usize = 0;
    while i < bytes.len()
        invariant
            i <= bytes.len(),
            out@ == old(out)@ + bytes@.take(i as int),
        decreases bytes.len() - i,
    {
        out.push(bytes[i]);
        i += 1;
    }
    assert(bytes@.take(bytes.len() as int) == bytes@);
}

/// Whether a password of `len` bytes can be encrypted: the cipher seals
/// it, and the blob can be encoded on this machine.
pub open spec fn sealable(len: nat) -> bool {
    len <= MAX_PLAINTEXT_LEN && len + NONCE_LEN + TAG_LEN <= usize::MAX / 2
}

/// Encrypts `password` under `key` with `nonce`. The blob that comes out
/// carries the nonce in front and decrypts to the password under the same
/// key. A password is refused where it is longer than the cipher seals at
/// once, or than can be encoded, and nowhere else.
pub fn encrypt_with(key: &[u8; 32], nonce: &[u8; 12], password: &str) -> (r: Result<
    String,
    CryptoError,
>)
    ensures
        r is Ok <==> sealable(encode_utf8(password@).len()),
        r matches Ok(blob) ==> {
            &&& blob@ == sealed_blob(key@, nonce@, password@)
            &&& carried_nonce(blob@) == Some(nonce@)
            &&& decryption(key@, blob@) == Ok::<Seq<char>, Refusal>(password@)
        },
        r matches Err(e) ==> e.kind() == if encode_utf8(password@).len() > MAX_PLAINTEXT_LEN {
            Refusal::Sealing
        } else {
            Refusal::TooLong
        },
{
    let plaintext = password.as_bytes();
    match seal(key, nonce.as_slice(), plaintext) {
        Err(e) => Err(CryptoError::Sealing(cipher_error_text(&e))),
        Ok(ciphertext) => {
            if ciphertext.len() > usize::MAX / 2 - NONCE_LEN {
                return Err(CryptoError::TooLong);
            }
            let mut combined: Vec<u8> = Vec::new();
            append_bytes(&mut combined, nonce.as_slice());
            append_bytes(&mut combined, ciphertext.as_slice());
            let blob = encode(combined.as_slice());
            proof {
                assert(combined@ =~= nonce@ + ciphertext@);
                assert(combined@.take(NONCE_LEN as int) =~= nonce@);
                assert(combined@.skip(NONCE_LEN as int) =~= ciphertext@);
                encode_utf8_valid_utf8(password@);
                encode_utf8_decode_utf8(password@);
            }
            Ok(blob)
        },
    }
}

/// Decrypts `blob` under `key`: the password where the blob is base64
/// text, long enough for a nonce and a tag, authentic under the key, and
/// text; else the reason why it is not.
pub fn decrypt_with(key: &[u8; 32], blob: &str) -> (r: Result<String, CryptoError>)
    ensures
        outcome(r) == decryption(key@, blob@),
{
    let combined = match decode(blob) {
        Ok(bytes) => bytes,
        Err(e) => {
            return Err(CryptoError::Encoding(decode_error_text(&e)));
        },
    };
    if combined.len() < NONCE_LEN + TAG_LEN {
        return Err(CryptoError::InvalidData);
    }
    let (nonce, ciphertext) = combined.as_slice().split_at(NONCE_LEN);
    proof {
        assert(nonce@ =~= combined@.take(NONCE_LEN as int));
        assert(ciphertext@ =~= combined@.skip(NONCE_LEN as int));
    }
    let plaintext = match open(key, nonce, ciphertext) {
        Ok(bytes) => bytes,
        Err(e) => {
            return Err(CryptoError::Authentication(cipher_error_text(&e)));
        },
    };
    match text_of(plaintext) {
        Ok(password) => Ok(password),
        Err(e) => Err(CryptoError::NotText(utf8_error_text(&e))),
    }
}

/// Encrypts `password` under this machine's key with a fresh nonce. What
/// comes out decrypts to the password under that key.
pub fn encrypt_password(password: &str) -> (r: Result<String, String>)
    ensures
        r is Ok <==> sealable(encode_utf8(password@).len()),
        r matches Ok(blob) ==> exists|host: Seq<char>, user: Seq<char>|
            #![trigger key_for(host, user)]
            decryption(key_for(host, user), blob@) == Ok::<Seq<char>, Refusal>(password@),
{
    let key = derive_key();
    let nonce = fresh_nonce();
    match encrypt_with(&key, &nonce, password) {
        Ok(blob) => {
            proof {
                let (host, user) = choose|host: Seq<char>, user: Seq<char>|
                    key@ == #[trigger] key_for(host, user);
                assert(decryption(key_for(host, user), blob@) == Ok::<Seq<char>, Refusal>(
                    password@,
                ));
            }
            Ok(blob)
        },
        Err(e) => Err(e.message()),
    }
}

/// Decrypts `encrypted` under this machine's key. Whatever the key, a
/// blob that is no base64 text or too short for a nonce and a tag is
/// refused, the latter as invalid encrypted data.
pub fn decrypt_password(encrypted: &str) -> (r: Result<String, String>)
    ensures
        exists|host: Seq<char>, user: Seq<char>|
            #![trigger key_for(host, user)]
            shown(r) == shown_decryption(key_for(host, user), encrypted@),
        base64_bytes(encrypted@) is None ==> r is Err,
        base64_bytes(encrypted@) matches Some(bytes) && bytes.len() < NONCE_LEN + TAG_LEN ==> (r
            matches Err(e) && e@ == "Invalid encrypted data"@),
{
    let key = derive_key();
    let r = decrypt_with(&key, encrypted);
    proof {
        let (host, user) = choose|host: Seq<char>, user: Seq<char>|
            key@ == #[trigger] key_for(host, user);
        assert(outcome(r) == decryption(key_for(host, user), encrypted@));
    }
    match r {
        Ok(password) => Ok(password),
        Err(e) => Err(e.message()),
    }
}

} // verus!
