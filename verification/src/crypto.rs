//! The chat's cryptography: AES-256-GCM for the session, ECIES over
//! secp256k1 for the key exchange, with the keys kept as hex text.

use aes_gcm::aead::{Aead, Payload};
use aes_gcm::{Aes256Gcm, KeyInit};
use rand::RngCore;
use vstd::prelude::*;
use vstd::utf8::*;

use crate::hexcodec::{
    hex_decode, hex_decode_spec, hex_encode, hex_encode_spec, lemma_hex_round_trip, lemma_hex_trim,
};
use crate::text::{
    string_from_utf8, trim, trim_end, trim_start, trimmed, TrimKind,
};

verus! {

/// Length of an AES-256 key in bytes.
pub const AES_KEY_LEN: usize = 32;

/// Length of an AES-GCM nonce in bytes.
pub const NONCE_LEN: usize = 12;

/// Length of the AES-GCM authentication tag appended to a ciphertext.
pub const TAG_LEN: usize = 16;

/// The longest plaintext that AES-GCM encrypts (`aes_gcm::P_MAX`, 2^36 bytes).
pub open spec fn aes_gcm_max_plaintext() -> int {
    0x10_0000_0000
}

/// A byte vector taken by its contents, inside an option.
pub open spec fn opt_bytes(o: Option<Vec<u8>>) -> Option<Seq<u8>> {
    match o {
        Some(v) => Some(v@),
        None => None,
    }
}

// ---------------------------------------------------------------------
// outside calls
// ---------------------------------------------------------------------

/// `RngCore::try_fill_bytes` on `rand`'s `OsRng`: the buffer keeps its
/// length and is filled from the operating system's generator.  What it
/// holds afterwards is left unsaid (it is random, and on an error of the
/// generator it is not promised to change).
#[verifier::external_body]
fn os_random_fill(buf: &mut Vec<u8>)
    ensures
        final(buf)@.len() == old(buf)@.len(),
{
    let _ = rand::rngs::OsRng.try_fill_bytes(buf.as_mut_slice());
}

/// The AES-256-GCM ciphertext (with its tag) of a plaintext under a key
/// and nonce, with no associated data.
pub uninterp spec fn aes256gcm_seal(key: Seq<u8>, nonce: Seq<u8>, plaintext: Seq<u8>) -> Seq<u8>;

/// What AES-256-GCM decryption of a ciphertext under a key and nonce
/// gives: the plaintext, or nothing when the tag does not verify.
pub uninterp spec fn aes256gcm_open(key: Seq<u8>, nonce: Seq<u8>, ciphertext: Seq<u8>) -> Option<
    Seq<u8>,
>;

/// `Aes256Gcm::encrypt` of `aes-gcm` with empty associated data.  Its
/// source appends the 16-byte tag to the encrypted message, and fails
/// only above `P_MAX` bytes, which `requires` leaves out.
#[verifier::external_body]
fn aes256gcm_encrypt(key: &[u8], nonce: &[u8; 12], plaintext: &[u8]) -> (res: Vec<u8>)
    requires
        key@.len() == 32,
        plaintext@.len() <= aes_gcm_max_plaintext(),
    ensures
        res@ == aes256gcm_seal(key@, nonce@, plaintext@),
        res@.len() == plaintext@.len() + 16,
{
    let cipher = Aes256Gcm::new(aes_gcm::Key::<Aes256Gcm>::from_slice(key));
    cipher.encrypt(aes_gcm::Nonce::from_slice(nonce), Payload { msg: plaintext, aad: b"" }).unwrap()
}

/// `Aes256Gcm::decrypt` of `aes-gcm` with empty associated data.  As an
/// AEAD it gives back the plaintext of a ciphertext that `encrypt` made
/// under the same key and nonce; other ciphertexts are left to the name.
#[verifier::external_body]
fn aes256gcm_decrypt(key: &[u8], nonce: &[u8; 12], ciphertext: &[u8]) -> (res: Option<Vec<u8>>)
    requires
        key@.len() == 32,
    ensures
        opt_bytes(res) == aes256gcm_open(key@, nonce@, ciphertext@),
        forall|m: Seq<u8>|
            m.len() <= aes_gcm_max_plaintext() && #[trigger] aes256gcm_seal(key@, nonce@, m)
                == ciphertext@ ==> opt_bytes(res) == Some(m),
{
    let cipher = Aes256Gcm::new(aes_gcm::Key::<Aes256Gcm>::from_slice(key));
    cipher.decrypt(aes_gcm::Nonce::from_slice(nonce), Payload { msg: ciphertext, aad: b"" }).ok()
}

/// The 32-byte encoding of the secp256k1 secret key that `k256`'s
/// `SecretKey::from_slice` reads from some bytes, or nothing when it
/// refuses them.
pub uninterp spec fn k256_secret_from_slice(bytes: Seq<u8>) -> Option<Seq<u8>>;

/// The SEC1 encoding of the public key of a secp256k1 secret key
/// (`SecretKey::public_key` of `k256`, then `to_sec1_bytes`).
pub uninterp spec fn k256_public_sec1(secret: Seq<u8>) -> Seq<u8>;

/// The SEC1 encoding of the public key that `k256`'s
/// `PublicKey::from_sec1_bytes` reads from some bytes, or nothing when
/// they are not a point of the curve.  `k256` compresses points, so the
/// encoding it gives back is read back as itself.
pub uninterp spec fn k256_public_from_sec1(bytes: Seq<u8>) -> Option<Seq<u8>>;

/// `SecretKey::random` of `k256`, drawn from `OsRng`, as its 32 bytes.
/// The key is random; what holds of every outcome is that `from_slice`
/// reads its bytes back as the same key.
#[verifier::external_body]
fn k256_random_secret() -> (res: Vec<u8>)
    ensures
        res@.len() == 32,
        k256_secret_from_slice(res@) == Some(res@),
{
    k256::SecretKey::random(&mut rand::rngs::OsRng).to_bytes().to_vec()
}

/// `SecretKey::from_slice` of `k256`, the key given back by `to_bytes`.
/// A key is 32 bytes, and 32 bytes that are read as a key are that key's
/// bytes.
#[verifier::external_body]
fn k256_secret_key(bytes: &[u8]) -> (res: Option<Vec<u8>>)
    ensures
        opt_bytes(res) == k256_secret_from_slice(bytes@),
        res matches Some(r) ==> r@.len() == 32 && (bytes@.len() == 32 ==> r@ == bytes@),
{
    match k256::SecretKey::from_slice(bytes) {
        Ok(k) => Some(k.to_bytes().to_vec()),
        Err(_) => None,
    }
}

/// `SecretKey::public_key` of `k256`, SEC1-encoded with `to_sec1_bytes`.
#[verifier::external_body]
fn k256_public_key(secret: &[u8]) -> (res: Vec<u8>)
    requires
        k256_secret_from_slice(secret@) is Some,
    ensures
        res@ == k256_public_sec1(secret@),
{
    k256::SecretKey::from_slice(secret).unwrap().public_key().to_sec1_bytes().to_vec()
}

/// `PublicKey::from_sec1_bytes` of `k256`, the key given back by
/// `to_sec1_bytes`.  The SEC1 encoding of a key's public key is read back
/// as that same encoding.
#[verifier::external_body]
fn k256_public_key_from_sec1(bytes: &[u8]) -> (res: Option<Vec<u8>>)
    ensures
        opt_bytes(res) == k256_public_from_sec1(bytes@),
        forall|sk: Seq<u8>|
            k256_secret_from_slice(sk) == Some(sk) && #[trigger] k256_public_sec1(sk) == bytes@
                ==> opt_bytes(res) == Some(bytes@),
        res matches Some(r) ==> k256_public_from_sec1(r@) == Some(r@),
{
    match k256::PublicKey::from_sec1_bytes(bytes) {
        Ok(k) => Some(k.to_sec1_bytes().to_vec()),
        Err(_) => None,
    }
}

/// What `ecies::decrypt` gives for a secret key and a ciphertext, under
/// the crate's default configuration, which nothing here changes.
pub uninterp spec fn ecies_open(secret: Seq<u8>, ciphertext: Seq<u8>) -> Option<Seq<u8>>;

/// The longest message that `ecies` encrypts with its pure-Rust AES-GCM
/// (`aes_gcm::P_MAX` of aes-gcm 0.11, 2^36 - 32 bytes).
pub open spec fn ecies_max_plaintext() -> int {
    0x10_0000_0000 - 32
}

/// `ecies::encrypt` to a SEC1-encoded secp256k1 public key.  It draws a
/// fresh ephemeral key, so of the ciphertext only the crate's documented
/// round trip is said: `ecies::decrypt` with the secret key of that public
/// key gives the message back.  For a key that `k256` reads (as it
/// re-encodes it), its source fails exactly on messages longer than the
/// AES-GCM limit: the shared point of a curve point and a nonzero scalar
/// is never the identity, and the derived key has the right length.
#[verifier::external_body]
fn ecies_encrypt(public: &[u8], msg: &[u8]) -> (res: Option<Vec<u8>>)
    ensures
        k256_public_from_sec1(public@) == Some(public@) ==> (res is Some <==> msg@.len()
            <= ecies_max_plaintext()),
        res matches Some(c) ==> forall|sk: Seq<u8>|
            k256_secret_from_slice(sk) == Some(sk) && #[trigger] k256_public_sec1(sk) == public@
                ==> ecies_open(sk, c@) == Some(msg@),
{
    ecies::encrypt(public, msg).ok()
}

/// `ecies::decrypt` with a secret key's bytes.
#[verifier::external_body]
fn ecies_decrypt(secret: &[u8], ciphertext: &[u8]) -> (res: Option<Vec<u8>>)
    ensures
        opt_bytes(res) == ecies_open(secret@, ciphertext@),
{
    ecies::decrypt(secret, ciphertext).ok()
}

// ---------------------------------------------------------------------
// symmetric session encryption
// ---------------------------------------------------------------------

/// The 32-byte AES key made from a session key: cut to 32 bytes, or
/// padded with zero bytes.
pub open spec fn session_key(key: Seq<u8>) -> Seq<u8> {
    if key.len() >= 32 {
        key.subrange(0, 32)
    } else {
        key + Seq::new((32 - key.len()) as nat, |i: int| 0u8)
    }
}

/// Brings a key to the 32 bytes that AES-256 takes.
fn fit_key(key: &mut Vec<u8>)
    ensures
        final(key)@ == session_key(old(key)@),
        final(key)@.len() == 32,
        forall|i: int|
            0 <= i < 32 ==> #[trigger] final(key)@[i] == (if i < old(key)@.len() {
                old(key)@[i]
            } else {
                0u8
            }),
        old(key)@.len() == 32 ==> final(key)@ == old(key)@,
{
    key.resize(AES_KEY_LEN, 0u8);
    assert(final(key)@ =~= session_key(old(key)@));
    proof {
        lemma_session_key(old(key)@);
    }
}

/// The AES key made from a session key is its first 32 bytes, padded with
/// zero bytes when it is shorter; a 32-byte key is used as it is.
pub proof fn lemma_session_key(key: Seq<u8>)
    ensures
        session_key(key).len() == 32,
        forall|i: int|
            0 <= i < 32 ==> #[trigger] session_key(key)[i] == (if i < key.len() {
                key[i]
            } else {
                0u8
            }),
        key.len() == 32 ==> session_key(key) == key,
{
    if key.len() == 32 {
        assert(key.subrange(0, 32) =~= key);
    }
}

/// A fresh random AES-256 session key.
pub fn gen_aes_key() -> (key: Vec<u8>)
    ensures
        key@.len() == AES_KEY_LEN,
{
    let mut key = vec![0u8; AES_KEY_LEN];
    os_random_fill(&mut key);
    key
}

/// A fresh random AES-GCM nonce.
pub fn gen_nonce() -> (nonce: [u8; 12]) {
    let mut buf = vec![0u8; NONCE_LEN];
    os_random_fill(&mut buf);
    let mut nonce = [0u8; 12];
    let mut i: usize = 0;
    while i < NONCE_LEN
        invariant
            buf@.len() == NONCE_LEN,
            i <= NONCE_LEN,
        decreases NONCE_LEN - i,
    {
        nonce[i] = buf[i];
        i = i + 1;
    }
    nonce
}

/// The nonce held in `bytes`, when they are exactly 12 bytes long.
pub fn nonce_from_bytes(bytes: &[u8]) -> (res: Option<[u8; 12]>)
    ensures
        bytes@.len() == NONCE_LEN <==> res is Some,
        res matches Some(n) ==> n@ == bytes@,
{
    if bytes.len() != NONCE_LEN {
        return None;
    }
    let mut nonce = [0u8; 12];
    let mut i: usize = 0;
    while i < NONCE_LEN
        invariant
            bytes@.len() == NONCE_LEN,
            nonce@.len() == NONCE_LEN,
            i <= NONCE_LEN,
            forall|k: int| 0 <= k < i ==> nonce@[k] == bytes@[k],
        decreases NONCE_LEN - i,
    {
        nonce[i] = bytes[i];
        i = i + 1;
    }
    assert(nonce@ =~= bytes@);
    Some(nonce)
}

/// The bytes of a nonce.
pub fn nonce_bytes(nonce: &[u8; 12]) -> (res: Vec<u8>)
    ensures
        res@ == nonce@,
{
    let mut v: Vec<u8> = Vec::new();
    let mut i: usize = 0;
    while i < NONCE_LEN
        invariant
            nonce@.len() == NONCE_LEN,
            i <= NONCE_LEN,
            v@ == nonce@.subrange(0, i as int),
        decreases NONCE_LEN - i,
    {
        v.push(nonce[i]);
        i = i + 1;
        assert(v@ =~= nonce@.subrange(0, i as int));
    }
    assert(nonce@.subrange(0, NONCE_LEN as int) =~= nonce@);
    v
}

/// Encrypts a message under the session key (cut or padded to 32 bytes)
/// and a nonce; the ciphertext carries the 16-byte tag.
pub fn aes_enc(plaintext: Vec<u8>, key: Vec<u8>, nonce: [u8; 12]) -> (res: Vec<u8>)
    requires
        plaintext@.len() <= aes_gcm_max_plaintext(),
    ensures
        res@ == aes256gcm_seal(session_key(key@), nonce@, plaintext@),
        res@.len() == plaintext@.len() + TAG_LEN,
        key@.len() == 32 ==> res@ == aes256gcm_seal(key@, nonce@, plaintext@),
{
    proof {
        lemma_session_key(key@);
    }
    let mut key = key;
    fit_key(&mut key);
    aes256gcm_encrypt(key.as_slice(), &nonce, plaintext.as_slice())
}

/// Decrypts a ciphertext under the session key (cut or padded to 32
/// bytes) and a nonce: the message that `aes_enc` encrypted with the same
/// key and nonce, or nothing when the tag does not verify.
pub fn aes_dec(ciphertext: Vec<u8>, key: Vec<u8>, nonce: [u8; 12]) -> (res: Option<Vec<u8>>)
    ensures
        opt_bytes(res) == aes256gcm_open(session_key(key@), nonce@, ciphertext@),
        forall|m: Seq<u8>|
            m.len() <= aes_gcm_max_plaintext() && #[trigger] aes256gcm_seal(
                session_key(key@),
                nonce@,
                m,
            ) == ciphertext@ ==> opt_bytes(res) == Some(m),
{
    let mut key = key;
    fit_key(&mut key);
    aes256gcm_decrypt(key.as_slice(), &nonce, ciphertext.as_slice())
}

// ---------------------------------------------------------------------
// asymmetric keys
// ---------------------------------------------------------------------

/// The two key files of a peer: its secret key and its public key, each
/// as hex text.
pub struct EccKeyText {
    /// Hex of the 32-byte secret key.
    pub secret_hex: String,
    /// Hex of the SEC1 encoding of the public key.
    pub public_hex: String,
}

/// The key texts of the secret key `sk`.
pub open spec fn key_text_of(sk: Seq<u8>, secret_hex: Seq<char>, public_hex: Seq<char>) -> bool {
    &&& k256_secret_from_slice(sk) == Some(sk)
    &&& secret_hex == hex_encode_spec(sk)
    &&& public_hex == hex_encode_spec(k256_public_sec1(sk))
}

/// Why a key or an ECIES operation was refused.
#[derive(PartialEq, Eq, Structural, Clone, Copy, Debug)]
pub enum EccError {
    /// The key text is not an even number of hex digits.
    KeyText,
    /// The bytes are not a secp256k1 secret key.
    InvalidSecretKey,
    /// The bytes are not a point of secp256k1.
    InvalidPublicKey,
    /// ECIES refused to encrypt.
    Encrypt,
    /// ECIES refused to decrypt the ciphertext.
    Decrypt,
}

/// A fresh secp256k1 key pair as the two hex texts that are kept in the
/// key files.
pub fn gen_ecc_keys() -> (keys: EccKeyText)
    ensures
        exists|sk: Seq<u8>| key_text_of(sk, keys.secret_hex@, keys.public_hex@),
        keys.secret_hex@.len() == 64,
{
    let secret = k256_random_secret();
    let public = k256_public_key(secret.as_slice());
    let keys = EccKeyText {
        secret_hex: hex_encode(secret.as_slice()),
        public_hex: hex_encode(public.as_slice()),
    };
    assert(key_text_of(secret@, keys.secret_hex@, keys.public_hex@));
    proof {
        crate::hexcodec::lemma_hex_encode_shape(secret@);
    }
    keys
}

/// The bytes that key text stands for: hex digits, with white space
/// around them trimmed.
pub open spec fn key_bytes(text: Seq<char>) -> Option<Seq<u8>> {
    hex_decode_spec(encode_utf8(trimmed(text, TrimKind::Whitespace)))
}

/// Reads hex key text, trimmed of surrounding white space.
fn decode_key_text(text: &str) -> (res: Result<Vec<u8>, EccError>)
    ensures
        match key_bytes(text@) {
            Some(b) => res matches Ok(v) && v@ == b,
            None => res == Err::<Vec<u8>, EccError>(EccError::KeyText),
        },
{
    let t = trim(text, TrimKind::Whitespace);
    match hex_decode(t.as_str()) {
        Some(v) => Ok(v),
        None => Err(EccError::KeyText),
    }
}

/// What reading the remote public key text gives: its SEC1 bytes as
/// `k256` re-encodes them.
pub open spec fn remote_key_spec(text: Seq<char>) -> Result<Seq<u8>, EccError> {
    match key_bytes(text) {
        None => Err(EccError::KeyText),
        Some(b) => match k256_public_from_sec1(b) {
            None => Err(EccError::InvalidPublicKey),
            Some(pk) => Ok(pk),
        },
    }
}

/// Reads the other peer's public key from the text of its key file.
/// The text of a key pair's public key is read as that public key.
pub fn load_remote_ecc_key(text: &str) -> (res: Result<Vec<u8>, EccError>)
    ensures
        match res {
            Ok(v) => remote_key_spec(text@) == Ok::<Seq<u8>, EccError>(v@),
            Err(e) => remote_key_spec(text@) == Err::<Seq<u8>, EccError>(e),
        },
        forall|sk: Seq<u8>, sh: Seq<char>|
            #[trigger] key_text_of(sk, sh, text@) ==> (res matches Ok(v) && v@ == k256_public_sec1(sk)),
        res matches Ok(v) ==> k256_public_from_sec1(v@) == Some(v@),
{
    proof {
        assert forall|sk: Seq<u8>, sh: Seq<char>| #[trigger] key_text_of(sk, sh, text@) implies key_bytes(
            text@,
        ) == Some(k256_public_sec1(sk)) by {
            lemma_key_text_bytes(k256_public_sec1(sk));
        }
    }
    let bytes = decode_key_text(text)?;
    match k256_public_key_from_sec1(bytes.as_slice()) {
        Some(pk) => Ok(pk),
        None => Err(EccError::InvalidPublicKey),
    }
}

/// The hex text of some bytes is read back as those bytes.
pub proof fn lemma_key_text_bytes(b: Seq<u8>)
    ensures
        key_bytes(hex_encode_spec(b)) == Some(b),
{
    lemma_hex_trim(b);
    lemma_hex_round_trip(b);
}

/// The local key pair as `ecc_dec` uses it.
pub struct LocalKeys {
    /// SEC1 encoding of the public key.
    pub public: Vec<u8>,
    /// The 32-byte secret key.
    pub secret: Vec<u8>,
}

/// What reading the local key files gives: both texts are decoded, then
/// the secret key, then the public key is read.
pub open spec fn local_keys_spec(secret_text: Seq<char>, public_text: Seq<char>) -> Result<
    (Seq<u8>, Seq<u8>),
    EccError,
> {
    match (key_bytes(secret_text), key_bytes(public_text)) {
        (Some(sb), Some(pb)) => match k256_secret_from_slice(sb) {
            None => Err(EccError::InvalidSecretKey),
            Some(sk) => match k256_public_from_sec1(pb) {
                None => Err(EccError::InvalidPublicKey),
                Some(pk) => Ok((pk, sk)),
            },
        },
        _ => Err(EccError::KeyText),
    }
}

/// Reads the local key pair from the texts of the two key files.  The
/// texts of a key pair are read as that pair.
pub fn load_local_ecc_keys(secret_text: &str, public_text: &str) -> (res: Result<
    LocalKeys,
    EccError,
>)
    ensures
        match res {
            Ok(k) => local_keys_spec(secret_text@, public_text@) == Ok::<
                (Seq<u8>, Seq<u8>),
                EccError,
            >((k.public@, k.secret@)),
            Err(e) => local_keys_spec(secret_text@, public_text@) == Err::<
                (Seq<u8>, Seq<u8>),
                EccError,
            >(e),
        },
        forall|sk: Seq<u8>|
            #[trigger] key_text_of(sk, secret_text@, public_text@) ==> (res matches Ok(k) && k.secret@
                == sk && k.public@ == k256_public_sec1(sk)),
{
    proof {
        assert forall|sk: Seq<u8>| #[trigger]
            key_text_of(sk, secret_text@, public_text@) implies key_bytes(secret_text@) == Some(sk)
            && key_bytes(public_text@) == Some(k256_public_sec1(sk)) by {
            lemma_key_text_bytes(sk);
            lemma_key_text_bytes(k256_public_sec1(sk));
        }
    }
    let secret_bytes = decode_key_text(secret_text)?;
    let public_bytes = decode_key_text(public_text)?;
    let secret = match k256_secret_key(secret_bytes.as_slice()) {
        Some(s) => s,
        None => {
            return Err(EccError::InvalidSecretKey);
        },
    };
    let public = match k256_public_key_from_sec1(public_bytes.as_slice()) {
        Some(p) => p,
        None => {
            return Err(EccError::InvalidPublicKey);
        },
    };
    Ok(LocalKeys { public, secret })
}

/// Encrypts a message to the peer whose public key text is given.  When
/// the text is a key pair's public key text, a ciphertext that comes back
/// is one that `ecies` decrypts with that pair's secret key.
pub fn ecc_enc(remote_key_text: &str, plaintext: Vec<u8>) -> (res: Result<Vec<u8>, EccError>)
    ensures
        remote_key_spec(remote_key_text@) matches Err(e) ==> res == Err::<Vec<u8>, EccError>(e),
        remote_key_spec(remote_key_text@) is Ok ==> (res is Ok <==> plaintext@.len()
            <= ecies_max_plaintext()),
        remote_key_spec(remote_key_text@) is Ok ==> (res is Ok || res == Err::<Vec<u8>, EccError>(
            EccError::Encrypt,
        )),
        forall|sk: Seq<u8>, sh: Seq<char>|
            #[trigger] key_text_of(sk, sh, remote_key_text@) ==> (res matches Ok(c) ==> ecies_open(
                sk,
                c@,
            ) == Some(plaintext@)),
{
    let public = load_remote_ecc_key(remote_key_text)?;
    match ecies_encrypt(public.as_slice(), plaintext.as_slice()) {
        Some(c) => Ok(c),
        None => Err(EccError::Encrypt),
    }
}

/// What `ecc_dec` gives: the local keys are read, then the ciphertext is
/// decrypted with the secret key.
pub open spec fn ecc_dec_spec(
    secret_text: Seq<char>,
    public_text: Seq<char>,
    ciphertext: Seq<u8>,
) -> Result<Seq<u8>, EccError> {
    match local_keys_spec(secret_text, public_text) {
        Err(e) => Err(e),
        Ok(k) => match ecies_open(k.1, ciphertext) {
            Some(m) => Ok(m),
            None => Err(EccError::Decrypt),
        },
    }
}

/// Decrypts a message with the local secret key, read from the texts of
/// the two key files.  With the texts of a key pair, this gives back what
/// `ecc_enc` encrypted to that pair's public key text.
pub fn ecc_dec(secret_text: &str, public_text: &str, ciphertext: Vec<u8>) -> (res: Result<
    Vec<u8>,
    EccError,
>)
    ensures
        match res {
            Ok(m) => ecc_dec_spec(secret_text@, public_text@, ciphertext@) == Ok::<
                Seq<u8>,
                EccError,
            >(m@),
            Err(e) => ecc_dec_spec(secret_text@, public_text@, ciphertext@) == Err::<
                Seq<u8>,
                EccError,
            >(e),
        },
        forall|sk: Seq<u8>|
            #[trigger] key_text_of(sk, secret_text@, public_text@) ==> match ecies_open(
                sk,
                ciphertext@,
            ) {
                Some(m) => res matches Ok(r) && r@ == m,
                None => res == Err::<Vec<u8>, EccError>(EccError::Decrypt),
            },
{
    let keys = load_local_ecc_keys(secret_text, public_text)?;
    match ecies_decrypt(keys.secret.as_slice(), ciphertext.as_slice()) {
        Some(m) => Ok(m),
        None => Err(EccError::Decrypt),
    }
}

// ---------------------------------------------------------------------
// exchanging public keys
// ---------------------------------------------------------------------

/// The public key text that a peer keeps from the bytes it received:
/// the bytes as UTF-8, trimmed of NUL characters and then of white space.
pub open spec fn received_key_text(bytes: Seq<u8>) -> Option<Seq<char>> {
    if valid_utf8(bytes) {
        Some(trimmed(trimmed(decode_utf8(bytes), TrimKind::Nul), TrimKind::Whitespace))
    } else {
        None
    }
}

/// The text of the other peer's public key, from the bytes it sent; none
/// when they are not UTF-8.
pub fn get_remote_ecc_key(received: Vec<u8>) -> (res: Option<String>)
    ensures
        match received_key_text(received@) {
            Some(t) => res matches Some(s) && s@ == t,
            None => res is None,
        },
{
    match string_from_utf8(received) {
        Some(s) => {
            let without_nul = trim(s.as_str(), TrimKind::Nul);
            Some(trim(without_nul.as_str(), TrimKind::Whitespace))
        },
        None => None,
    }
}

/// The public key text of a key pair, sent as its UTF-8 bytes, is the
/// text the other peer keeps.
pub proof fn lemma_public_key_text_transfer(sk: Seq<u8>)
    ensures
        received_key_text(encode_utf8(hex_encode_spec(k256_public_sec1(sk)))) == Some(
            hex_encode_spec(k256_public_sec1(sk)),
        ),
{
    let t = hex_encode_spec(k256_public_sec1(sk));
    encode_utf8_valid_utf8(t);
    encode_utf8_decode_utf8(t);
    crate::hexcodec::lemma_hex_encode_shape(k256_public_sec1(sk));
    if t.len() > 0 {
        assert(crate::hexcodec::hex_value(t[0] as u8) is Some);
        assert(crate::hexcodec::hex_value(t.last() as u8) is Some);
        assert(t[0] != '\0');
        assert(t.last() != '\0');
    }
    assert(trim_start(t, TrimKind::Nul) == t);
    assert(trim_end(t, TrimKind::Nul) == t);
    lemma_hex_trim(k256_public_sec1(sk));
}

} // verus!
