//! End-to-end encryption of file contents with ChaCha20-Poly1305, random
//! keys and transfer tokens.
use vstd::prelude::*;
use vstd::string::*;
use chacha20poly1305::aead::Aead;
use chacha20poly1305::KeyInit;
use rand::RngCore;
use crate::encoding::{
    base64_encode, base64_url_decoding, decode_base64_url, encode_url_safe_no_pad,
    lemma_base64_encode_len,
};
use crate::time::Timestamp;

verus! {

/// Length in bytes of a key.
pub const KEY_LEN: usize = 32;

/// Length in bytes of a nonce.
pub const NONCE_LEN: usize = 12;

/// Length in bytes of the authentication tag that ends every ciphertext.
pub const TAG_LEN: usize = 16;

/// Number of random bytes behind a transfer token.
pub const TOKEN_BYTES: usize = 32;

/// Number of 64-byte blocks past which the cipher's block counter would
/// overflow.
pub const MAX_BLOCKS: usize = 0xffff_ffffusize;

/// A message of `len` bytes is short enough to encrypt.
pub open spec fn within_block_limit(len: nat) -> bool {
    len / 64 < MAX_BLOCKS
}

/// A 256-bit ChaCha20-Poly1305 key.
pub struct Key {
    bytes: Vec<u8>,
}

impl View for Key {
    type V = Seq<u8>;

    closed spec fn view(&self) -> Seq<u8> {
        self.bytes@
    }
}

impl Key {
    #[verifier::type_invariant]
    spec fn inv(self) -> bool {
        self.bytes@.len() == KEY_LEN
    }

    /// The key made of `bytes`, where there are exactly 32 of them.
    pub fn from_bytes(bytes: &[u8]) -> (r: Option<Key>)
        ensures
            r is Some <==> bytes@.len() == KEY_LEN,
            r matches Some(k) ==> k@ == bytes@,
    {
        if bytes.len() == KEY_LEN {
            let v = vstd::slice::slice_to_vec(bytes);
            Some(Key { bytes: v })
        } else {
            None
        }
    }

    /// The key's bytes.
    pub fn to_bytes(&self) -> (r: Vec<u8>)
        ensures
            r@ == self@,
            r@.len() == KEY_LEN,
    {
        proof {
            use_type_invariant(self);
        }
        self.bytes.clone()
    }

    /// The key that a transfer token carries: the token decoded from
    /// URL-safe unpadded base64, where that gives exactly 32 bytes.
    pub fn from_token(token: &str) -> (r: Option<Key>)
        ensures
            r is Some <==> (base64_url_decoding(token@) matches Some(b) && b.len() == KEY_LEN),
            r matches Some(k) ==> base64_url_decoding(token@) == Some(k@),
    {
        match decode_base64_url(token) {
            Ok(bytes) => Key::from_bytes(bytes.as_slice()),
            Err(_) => None,
        }
    }

    /// Every key is 32 bytes long.
    pub fn len(&self) -> (r: usize)
        ensures
            r == self@.len(),
            r == KEY_LEN,
    {
        proof {
            use_type_invariant(self);
        }
        self.bytes.len()
    }
}

/// Why encryption or decryption failed.
#[derive(Debug)]
pub enum EncryptionError {
    EncryptionFailed(String),
    DecryptionFailed(String),
    InvalidKeyLength,
}

/// The text that describes an error.
pub open spec fn error_text(e: EncryptionError) -> Seq<char> {
    match e {
        EncryptionError::EncryptionFailed(m) => "Encryption failed: "@ + m@,
        EncryptionError::DecryptionFailed(m) => "Decryption failed: "@ + m@,
        EncryptionError::InvalidKeyLength => "Invalid key length"@,
    }
}

impl EncryptionError {
    /// The text that describes this error.
    pub fn message(&self) -> (r: String)
        ensures
            r@ == error_text(*self),
    {
        match self {
            EncryptionError::EncryptionFailed(m) => {
                let mut r = "Encryption failed: ".to_owned();
                r.append(m.as_str());
                r
            },
            EncryptionError::DecryptionFailed(m) => {
                let mut r = "Decryption failed: ".to_owned();
                r.append(m.as_str());
                r
            },
            EncryptionError::InvalidKeyLength => "Invalid key length".to_owned(),
        }
    }
}

/// An encrypted file and what is known of it.
#[derive(Debug, Clone)]
pub struct EncryptedFile {
    pub id: String,
    pub filename: String,
    pub size: u64,
    pub encrypted_data: Vec<u8>,
    pub nonce: Vec<u8>,
    pub created_at: Timestamp,
    pub expires_at: Option<Timestamp>,
}

/// The abstract content of an encrypted file record.
pub struct FileModel {
    pub id: Seq<char>,
    pub filename: Seq<char>,
    pub size: u64,
    pub encrypted_data: Seq<u8>,
    pub nonce: Seq<u8>,
    pub created_at: (int, int),
    pub expires_at: Option<(int, int)>,
}

pub open spec fn option_instant(t: Option<Timestamp>) -> Option<(int, int)> {
    match t {
        Some(t) => Some(t@),
        None => None,
    }
}

impl View for EncryptedFile {
    type V = FileModel;

    open spec fn view(&self) -> FileModel {
        FileModel {
            id: self.id@,
            filename: self.filename@,
            size: self.size,
            encrypted_data: self.encrypted_data@,
            nonce: self.nonce@,
            created_at: self.created_at@,
            expires_at: option_instant(self.expires_at),
        }
    }
}

fn copy_instant(t: &Option<Timestamp>) -> (r: Option<Timestamp>)
    ensures
        option_instant(r) == option_instant(*t),
{
    match t {
        Some(t) => Some(t.copy()),
        None => None,
    }
}

impl EncryptedFile {
    /// A copy of this record.
    pub fn duplicate(&self) -> (r: EncryptedFile)
        ensures
            r@ == self@,
    {
        EncryptedFile {
            id: self.id.clone(),
            filename: self.filename.clone(),
            size: self.size,
            encrypted_data: self.encrypted_data.clone(),
            nonce: self.nonce.clone(),
            created_at: self.created_at.copy(),
            expires_at: copy_instant(&self.expires_at),
        }
    }
}

/// `len` bytes from the operating system's random source
/// (`rand::rngs::OsRng.fill_bytes`). Which bytes is not stated; `rand`
/// panics where the operating system gives no random bytes.
#[verifier::external_body]
fn os_random_bytes(len: usize) -> (r: Vec<u8>)
    ensures
        r@.len() == len,
{
    let mut buf = vec![0u8; len];
    rand::rngs::OsRng.fill_bytes(&mut buf);
    buf
}

/// The ChaCha20-Poly1305 ciphertext (the encrypted message followed by the
/// 16-byte tag) of `plaintext` under `key` and `nonce`, with no associated
/// data.
pub uninterp spec fn chacha20poly1305_seal(key: Seq<u8>, nonce: Seq<u8>, plaintext: Seq<u8>) -> Seq<u8>;

/// The plaintext that ChaCha20-Poly1305 recovers from `ciphertext` under
/// `key` and `nonce`, with no associated data, or `None` where the tag does
/// not authenticate it.
pub uninterp spec fn chacha20poly1305_open(key: Seq<u8>, nonce: Seq<u8>, ciphertext: Seq<u8>) -> Option<Seq<u8>>;

/// The error type of the AEAD crate.
#[verifier::external_type_specification]
#[verifier::external_body]
pub struct ExAeadError(chacha20poly1305::Error);

/// `ChaCha20Poly1305::new(key).encrypt(nonce, plaintext)`: fails exactly
/// where the message is too long for the block counter; otherwise gives the
/// sealed text that `chacha20poly1305_seal` names, 16 bytes longer than the
/// message. `Nonce::from_slice` panics unless the nonce is 12 bytes long.
#[verifier::external_body]
fn chacha_encrypt(key: &Key, nonce: &[u8], plaintext: &[u8]) -> (r: Result<Vec<u8>, chacha20poly1305::Error>)
    requires
        key@.len() == KEY_LEN,
        nonce@.len() == NONCE_LEN,
    ensures
        r is Ok <==> within_block_limit(plaintext@.len()),
        r matches Ok(c) ==> c@ == chacha20poly1305_seal(key@, nonce@, plaintext@),
        r matches Ok(c) ==> c@.len() == plaintext@.len() + TAG_LEN,
{
    let cipher = chacha20poly1305::ChaCha20Poly1305::new(chacha20poly1305::Key::from_slice(&key.bytes));
    cipher.encrypt(chacha20poly1305::Nonce::from_slice(nonce), plaintext)
}

/// `ChaCha20Poly1305::new(key).decrypt(nonce, ciphertext)`: succeeds exactly
/// where `chacha20poly1305_open` names a plaintext, and gives it. It refuses
/// a text shorter than the tag, and gives back every message that
/// `encrypt` sealed under the same key and nonce (the AEAD round trip); what
/// it accepts is the sealing of what it gives (the tag is checked over the
/// text, and the key stream is undone).
/// `Nonce::from_slice` panics unless the nonce is 12 bytes long.
#[verifier::external_body]
fn chacha_decrypt(key: &Key, nonce: &[u8], ciphertext: &[u8]) -> (r: Result<Vec<u8>, chacha20poly1305::Error>)
    requires
        key@.len() == KEY_LEN,
        nonce@.len() == NONCE_LEN,
    ensures
        r is Ok <==> chacha20poly1305_open(key@, nonce@, ciphertext@) is Some,
        r matches Ok(p) ==> chacha20poly1305_open(key@, nonce@, ciphertext@) == Some(p@),
        r matches Ok(p) ==> ciphertext@ == chacha20poly1305_seal(key@, nonce@, p@),
        ciphertext@.len() < TAG_LEN ==> r is Err,
        forall|p: Seq<u8>|
            within_block_limit(p.len()) && ciphertext@ == #[trigger] chacha20poly1305_seal(key@, nonce@, p)
                ==> (r is Ok && r->Ok_0@ == p),
{
    let cipher = chacha20poly1305::ChaCha20Poly1305::new(chacha20poly1305::Key::from_slice(&key.bytes));
    cipher.decrypt(chacha20poly1305::Nonce::from_slice(nonce), ciphertext)
}

/// `ToString::to_string` on the AEAD error, whose `Display` writes
/// `aead::Error`.
#[verifier::external_body]
fn aead_error_text(e: &chacha20poly1305::Error) -> (r: String)
    ensures
        r@ == "aead::Error"@,
{
    e.to_string()
}

/// A new random key.
pub fn generate_key() -> (r: Result<Key, EncryptionError>)
    ensures
        r is Ok,
        r matches Ok(k) ==> k@.len() == KEY_LEN,
{
    let bytes = os_random_bytes(KEY_LEN);
    Ok(Key { bytes })
}

/// Encrypts `data` under `key` and the given 12-byte `nonce`. Fails, with
/// `EncryptionFailed("aead::Error")`, exactly where the message is too long
/// for the cipher.
pub fn encrypt_with_nonce(data: &[u8], key: &Key, nonce: &[u8]) -> (r: Result<Vec<u8>, EncryptionError>)
    requires
        nonce@.len() == NONCE_LEN,
    ensures
        r is Ok <==> within_block_limit(data@.len()),
        r matches Ok(c) ==> c@ == chacha20poly1305_seal(key@, nonce@, data@),
        r matches Ok(c) ==> c@.len() == data@.len() + TAG_LEN,
        r matches Err(e) ==> error_text(e) == "Encryption failed: aead::Error"@,
        r matches Err(e) ==> e is EncryptionFailed,
{
    proof {
        use_type_invariant(key);
    }
    match chacha_encrypt(key, nonce, data) {
        Ok(c) => Ok(c),
        Err(e) => {
            let m = aead_error_text(&e);
            proof {
                reveal_strlit("Encryption failed: ");
                reveal_strlit("aead::Error");
                reveal_strlit("Encryption failed: aead::Error");
                assert("Encryption failed: "@ + m@ =~= "Encryption failed: aead::Error"@);
            }
            Err(EncryptionError::EncryptionFailed(m))
        },
    }
}

/// Encrypts `data` under `key` with a fresh random nonce, and returns the
/// ciphertext and the nonce.
pub fn encrypt(data: &[u8], key: &Key) -> (r: Result<(Vec<u8>, Vec<u8>), EncryptionError>)
    ensures
        r is Ok <==> within_block_limit(data@.len()),
        r matches Ok((c, n)) ==> n@.len() == NONCE_LEN && c@ == chacha20poly1305_seal(
            key@,
            n@,
            data@,
        ) && c@.len() == data@.len() + TAG_LEN,
        r matches Err(e) ==> e is EncryptionFailed && error_text(e)
            == "Encryption failed: aead::Error"@,
{
    let nonce = os_random_bytes(NONCE_LEN);
    match encrypt_with_nonce(data, key, nonce.as_slice()) {
        Ok(c) => Ok((c, nonce)),
        Err(e) => Err(e),
    }
}

/// Decrypts `encrypted_data` under `key` and the 12-byte `nonce`. Gives back
/// the message that `encrypt` sealed under the same key and nonce; fails,
/// with `DecryptionFailed("aead::Error")`, where the tag does not
/// authenticate the text.
pub fn decrypt(encrypted_data: &[u8], nonce: &[u8], key: &Key) -> (r: Result<Vec<u8>, EncryptionError>)
    requires
        nonce@.len() == NONCE_LEN,
    ensures
        r is Ok <==> chacha20poly1305_open(key@, nonce@, encrypted_data@) is Some,
        r matches Ok(p) ==> chacha20poly1305_open(key@, nonce@, encrypted_data@) == Some(p@),
        r matches Ok(p) ==> encrypted_data@ == chacha20poly1305_seal(key@, nonce@, p@),
        encrypted_data@.len() < TAG_LEN ==> r is Err,
        forall|p: Seq<u8>|
            within_block_limit(p.len()) && encrypted_data@ == #[trigger] chacha20poly1305_seal(
                key@,
                nonce@,
                p,
            ) ==> (r is Ok && r->Ok_0@ == p),
        r matches Err(e) ==> e is DecryptionFailed && error_text(e)
            == "Decryption failed: aead::Error"@,
{
    proof {
        use_type_invariant(key);
    }
    match chacha_decrypt(key, nonce, encrypted_data) {
        Ok(p) => Ok(p),
        Err(e) => {
            let m = aead_error_text(&e);
            proof {
                reveal_strlit("Decryption failed: ");
                reveal_strlit("aead::Error");
                reveal_strlit("Decryption failed: aead::Error");
                assert("Decryption failed: "@ + m@ =~= "Decryption failed: aead::Error"@);
            }
            Err(EncryptionError::DecryptionFailed(m))
        },
    }
}

/// Length of a transfer token: 43 URL-safe base64 symbols.
pub open spec fn token_len() -> nat {
    43
}

/// A new random transfer token: 32 random bytes in URL-safe base64 with no
/// padding, 43 symbols long.
pub fn generate_token() -> (r: String)
    ensures
        r@.len() == token_len(),
        exists|bytes: Seq<u8>| bytes.len() == TOKEN_BYTES && r@ == base64_encode(bytes, true, false),
{
    let bytes = os_random_bytes(TOKEN_BYTES);
    proof {
        lemma_base64_encode_len(bytes@, true, false);
    }
    encode_url_safe_no_pad(bytes.as_slice())
}

/// The transfer token that hands `key` to the receiver: its 32 bytes in
/// URL-safe base64 with no padding, 43 symbols long.
pub fn key_token(key: &Key) -> (r: String)
    ensures
        r@ == base64_encode(key@, true, false),
        r@.len() == token_len(),
{
    proof {
        use_type_invariant(key);
        lemma_base64_encode_len(key@, true, false);
    }
    encode_url_safe_no_pad(key.bytes.as_slice())
}

} // verus!
