use rchat::crypto::{
    aes_dec, aes_enc, ecc_dec, ecc_enc, gen_aes_key, gen_ecc_keys, gen_nonce, get_remote_ecc_key,
    load_local_ecc_keys, load_remote_ecc_key, nonce_bytes, nonce_from_bytes, EccError, TAG_LEN,
};

#[test]
fn aes_round_trip() {
    let key = gen_aes_key();
    let nonce = gen_nonce();
    let msg = b"hello, world".to_vec();
    let ct = aes_enc(msg.clone(), key.clone(), nonce);
    assert_eq!(ct.len(), msg.len() + TAG_LEN);
    assert_ne!(ct[..msg.len()], msg[..]);
    assert_eq!(aes_dec(ct, key, nonce), Some(msg));
}

#[test]
fn aes_known_vector() {
    // AES-256-GCM, zero key, zero nonce, empty message: only the tag.
    let ct = aes_enc(Vec::new(), vec![0u8; 32], [0u8; 12]);
    assert_eq!(hex::encode(&ct), "530f8afbc74536b9a963b4f1c4cb738b");
    // one zero block
    let ct = aes_enc(vec![0u8; 16], vec![0u8; 32], [0u8; 12]);
    assert_eq!(
        hex::encode(&ct),
        "cea7403d4d606b6e074ec5d3baf39d18d0d1c8a799996bf0265b98b5d48ab919"
    );
}

#[test]
fn aes_short_and_long_keys_are_fitted() {
    let nonce = [7u8; 12];
    let mut padded = vec![1u8, 2, 3];
    padded.resize(32, 0);
    assert_eq!(
        aes_enc(b"x".to_vec(), vec![1, 2, 3], nonce),
        aes_enc(b"x".to_vec(), padded.clone(), nonce)
    );
    let mut long = padded.clone();
    long.extend_from_slice(&[9, 9, 9]);
    assert_eq!(
        aes_enc(b"x".to_vec(), long, nonce),
        aes_enc(b"x".to_vec(), padded, nonce)
    );
}

#[test]
fn aes_wrong_key_or_nonce_fails() {
    let nonce = [1u8; 12];
    let ct = aes_enc(b"secret".to_vec(), vec![5u8; 32], nonce);
    assert_eq!(aes_dec(ct.clone(), vec![6u8; 32], nonce), None);
    assert_eq!(aes_dec(ct.clone(), vec![5u8; 32], [2u8; 12]), None);
    assert_eq!(aes_dec(ct[..3].to_vec(), vec![5u8; 32], nonce), None);
}

#[test]
fn random_keys_and_nonces() {
    let a = gen_aes_key();
    let b = gen_aes_key();
    assert_eq!(a.len(), 32);
    assert_ne!(a, b);
    assert_ne!(gen_nonce(), gen_nonce());
}

#[test]
fn nonces_from_bytes() {
    let bytes: Vec<u8> = (0..12).collect();
    let n = nonce_from_bytes(&bytes).unwrap();
    assert_eq!(nonce_bytes(&n), bytes);
    assert_eq!(nonce_from_bytes(&bytes[..11]), None);
    assert_eq!(nonce_from_bytes(&[0u8; 13]), None);
}

#[test]
fn ecc_key_files_round_trip() {
    let keys = gen_ecc_keys();
    assert_eq!(keys.secret_hex.len(), 64);
    assert_eq!(keys.public_hex.len(), 66);
    assert!(keys.public_hex.chars().all(|c| c.is_ascii_hexdigit() && !c.is_ascii_uppercase()));
    let local = load_local_ecc_keys(&format!("{}\n", keys.secret_hex), &keys.public_hex).unwrap();
    assert_eq!(hex::encode(&local.secret), keys.secret_hex);
    assert_eq!(hex::encode(&local.public), keys.public_hex);
    let remote = load_remote_ecc_key(&format!("  {}  ", keys.public_hex)).unwrap();
    assert_eq!(remote, local.public);
}

#[test]
fn ecc_exchange_round_trip() {
    let keys = gen_ecc_keys();
    let session = gen_aes_key();
    let ct = ecc_enc(&keys.public_hex, session.clone()).unwrap();
    assert_ne!(ct, session);
    assert_eq!(ecc_dec(&keys.secret_hex, &keys.public_hex, ct), Ok(session));
}

#[test]
fn ecc_other_key_cannot_decrypt() {
    let alice = gen_ecc_keys();
    let bob = gen_ecc_keys();
    let ct = ecc_enc(&alice.public_hex, b"key".to_vec()).unwrap();
    assert_eq!(ecc_dec(&bob.secret_hex, &bob.public_hex, ct), Err(EccError::Decrypt));
}

#[test]
fn ecc_errors() {
    let keys = gen_ecc_keys();
    assert_eq!(load_remote_ecc_key("zz"), Err(EccError::KeyText));
    assert_eq!(load_remote_ecc_key("abc"), Err(EccError::KeyText));
    assert_eq!(load_remote_ecc_key("0102"), Err(EccError::InvalidPublicKey));
    assert_eq!(ecc_enc("0102", b"m".to_vec()), Err(EccError::InvalidPublicKey));
    let zero = "00".repeat(32);
    assert_eq!(
        load_local_ecc_keys(&zero, &keys.public_hex).err(),
        Some(EccError::InvalidSecretKey)
    );
    assert_eq!(
        load_local_ecc_keys(&keys.secret_hex, "02ff").err(),
        Some(EccError::InvalidPublicKey)
    );
    assert_eq!(
        load_local_ecc_keys("xyz", &keys.public_hex).err(),
        Some(EccError::KeyText)
    );
    assert_eq!(
        ecc_dec(&keys.secret_hex, &keys.public_hex, vec![1, 2, 3]),
        Err(EccError::Decrypt)
    );
}

#[test]
fn received_key_text_is_trimmed() {
    let keys = gen_ecc_keys();
    let mut bytes = keys.public_hex.as_bytes().to_vec();
    assert_eq!(get_remote_ecc_key(bytes.clone()), Some(keys.public_hex.clone()));
    bytes.push(b'\n');
    bytes.extend_from_slice(&[0, 0, 0]);
    bytes.insert(0, 0);
    assert_eq!(get_remote_ecc_key(bytes), Some(keys.public_hex.clone()));
    assert_eq!(get_remote_ecc_key(vec![0xff, 0xfe]), None);
}
