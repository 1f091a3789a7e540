use pbcli::aead::{open, seal};
use pbcli::compression::{compress, decompress};
use pbcli::crypto::{decrypt_with_password, encrypt};
use pbcli::error::PasteError;
use pbcli::kdf::derive_key;
use pbcli::privatebin::{Cipher, CompressionType, Comment, Data, Meta, Paste, PasteFormat};

const PAYLOAD: &str = "{\"paste\":\"hello\",\"attachment\":null,\"attachment_name\":null}";

fn hex(s: &str) -> Vec<u8> {
    (0..s.len()).step_by(2).map(|i| u8::from_str_radix(&s[i..i + 2], 16).unwrap()).collect()
}

fn empty_meta() -> Meta {
    Meta { created: None, expire: None, time_to_live: None, icon: None }
}

fn zero_cipher(nonce_len: usize) -> Cipher {
    Cipher {
        cipher_iv: base64::encode(vec![0u8; nonce_len]),
        kdf_salt: base64::encode([0u8; 8]),
        kdf_iterations: 100000,
        kdf_keysize: 256,
        cipher_tag_size: 128,
        cipher_algo: "aes".to_string(),
        cipher_mode: "gcm".to_string(),
        compression_type: CompressionType::Zlib,
    }
}

fn paste_with(cipher: Cipher, ct: String) -> Paste {
    Paste {
        status: Some(0),
        id: "pasteid".to_string(),
        url: None,
        v: 2,
        ct,
        meta: empty_meta(),
        adata: Data { cipher, format: PasteFormat::Plaintext, discuss: 0, burn: 0 },
        comments: None,
    }
}

/// Encrypts PAYLOAD for a paste with all-zero secret, salt and nonce.
fn zero_paste(password: &str) -> Paste {
    let mut paste = paste_with(zero_cipher(16), String::new());
    let aad = paste.adata.serialize();
    let ct = encrypt(PAYLOAD, &[0u8; 32], password, &[0u8; 8], &[0u8; 16], 100000, &aad).unwrap();
    paste.ct = base64::encode(ct);
    paste
}

#[test]
fn end_to_end_zero_inputs() {
    let paste = zero_paste("");
    let plain = decrypt_with_password(&paste, &[0u8; 32], "").unwrap();
    assert_eq!(plain, PAYLOAD.as_bytes());
    let wrong = decrypt_with_password(&paste, &[0u8; 32], "x");
    assert!(matches!(wrong, Err(PasteError::Aes(_))));
}

#[test]
fn end_to_end_through_base58_key() {
    let paste = zero_paste("");
    let key = bs58::encode([0u8; 32]).into_string();
    assert_eq!(paste.decrypt(&key).unwrap(), PAYLOAD.as_bytes());
    assert!(matches!(paste.decrypt_with_password(&key, "x"), Err(PasteError::Aes(_))));
}

#[test]
fn adata_matches_known_encoding() {
    let data = Data { cipher: zero_cipher(16), format: PasteFormat::Plaintext, discuss: 0, burn: 0 };
    assert_eq!(
        data.serialize(),
        "[[\"AAAAAAAAAAAAAAAAAAAAAA==\",\"AAAAAAAAAAA=\",100000,256,128,\"aes\",\"gcm\",\"zlib\"],\"plaintext\",0,0]"
    );
}

#[test]
fn cipher_matches_known_encoding() {
    let mut cipher = zero_cipher(16);
    cipher.compression_type = CompressionType::Uncompressed;
    cipher.cipher_mode = "g\"cm".to_string();
    assert_eq!(
        cipher.serialize(),
        "[\"AAAAAAAAAAAAAAAAAAAAAA==\",\"AAAAAAAAAAA=\",100000,256,128,\"aes\",\"g\\\"cm\",\"none\"]"
    );
}

#[test]
fn adata_flags_and_formats() {
    let data = Data { cipher: zero_cipher(16), format: PasteFormat::Syntax, discuss: 1, burn: 0 };
    assert!(data.serialize().ends_with("],\"syntaxhighlighting\",1,0]"));
    let data = Data { cipher: zero_cipher(16), format: PasteFormat::Markdown, discuss: 0, burn: 1 };
    assert!(data.serialize().ends_with("],\"markdown\",0,1]"));
}

#[test]
fn reordered_adata_is_rejected() {
    let mut paste = paste_with(zero_cipher(16), String::new());
    let reordered = "[\"plaintext\",[\"AAAAAAAAAAAAAAAAAAAAAA==\",\"AAAAAAAAAAA=\",100000,256,128,\"aes\",\"gcm\",\"zlib\"],0,0]";
    let ct = encrypt(PAYLOAD, &[0u8; 32], "", &[0u8; 8], &[0u8; 16], 100000, reordered).unwrap();
    paste.ct = base64::encode(ct);
    assert!(matches!(decrypt_with_password(&paste, &[0u8; 32], ""), Err(PasteError::Aes(_))));
}

#[test]
fn tampered_ciphertext_is_rejected() {
    let paste = zero_paste("pw");
    let ct = base64::decode(&paste.ct).unwrap();
    for byte in [0usize, ct.len() / 2, ct.len() - 1] {
        for bit in [0u8, 7] {
            let mut bad = ct.clone();
            bad[byte] ^= 1 << bit;
            let tampered = paste_with(zero_cipher(16), base64::encode(&bad));
            assert!(matches!(decrypt_with_password(&tampered, &[0u8; 32], "pw"), Err(PasteError::Aes(_))));
        }
    }
}

#[test]
fn tampered_nonce_is_rejected() {
    let paste = zero_paste("pw");
    let mut nonce = vec![0u8; 16];
    nonce[3] ^= 0x10;
    let mut cipher = zero_cipher(16);
    cipher.cipher_iv = base64::encode(&nonce);
    let tampered = paste_with(cipher, paste.ct.clone());
    assert!(matches!(decrypt_with_password(&tampered, &[0u8; 32], "pw"), Err(PasteError::Aes(_))));
}

#[test]
fn tampered_metadata_is_rejected() {
    let paste = zero_paste("pw");
    let mut tampered = paste_with(zero_cipher(16), paste.ct.clone());
    tampered.adata.burn = 1;
    assert!(matches!(decrypt_with_password(&tampered, &[0u8; 32], "pw"), Err(PasteError::Aes(_))));
    let mut tampered = paste_with(zero_cipher(16), paste.ct.clone());
    tampered.adata.format = PasteFormat::Markdown;
    assert!(matches!(decrypt_with_password(&tampered, &[0u8; 32], "pw"), Err(PasteError::Aes(_))));
}

#[test]
fn wrong_secret_is_rejected() {
    let paste = zero_paste("");
    let mut secret = [0u8; 32];
    secret[31] = 1;
    assert!(matches!(decrypt_with_password(&paste, &secret, ""), Err(PasteError::Aes(_))));
}

#[test]
fn twelve_byte_nonce_round_trip() {
    let mut paste = paste_with(zero_cipher(12), String::new());
    let aad = paste.adata.serialize();
    let ct = encrypt(PAYLOAD, &[7u8; 32], "secret", &[0u8; 8], &[0u8; 12], 100000, &aad).unwrap();
    paste.ct = base64::encode(ct);
    assert_eq!(decrypt_with_password(&paste, &[7u8; 32], "secret").unwrap(), PAYLOAD.as_bytes());
}

#[test]
fn unsupported_nonce_length_is_invalid() {
    let r = encrypt(PAYLOAD, &[0u8; 32], "", &[0u8; 8], &[0u8; 8], 100000, "[]");
    assert!(matches!(r, Err(PasteError::InvalidData)));
    let paste = paste_with(zero_cipher(8), base64::encode([0u8; 40]));
    assert!(matches!(decrypt_with_password(&paste, &[0u8; 32], ""), Err(PasteError::InvalidData)));
}

#[test]
fn zero_iterations_are_invalid() {
    let r = encrypt(PAYLOAD, &[0u8; 32], "", &[0u8; 8], &[0u8; 16], 0, "[]");
    assert!(matches!(r, Err(PasteError::InvalidData)));
    let mut cipher = zero_cipher(16);
    cipher.kdf_iterations = 0;
    let paste = paste_with(cipher, zero_paste("").ct);
    assert!(matches!(decrypt_with_password(&paste, &[0u8; 32], ""), Err(PasteError::InvalidData)));
}

#[test]
fn unsupported_cipher_is_reported() {
    let mut cipher = zero_cipher(16);
    cipher.cipher_mode = "cbc".to_string();
    let paste = paste_with(cipher, zero_paste("").ct);
    match decrypt_with_password(&paste, &[0u8; 32], "") {
        Err(PasteError::CipherNotImplemented { cipher_algo, cipher_mode, keysize }) => {
            assert_eq!(cipher_algo, "aes");
            assert_eq!(cipher_mode, "cbc");
            assert_eq!(keysize, 256);
        }
        other => panic!("unexpected {:?}", other),
    }
    let mut cipher = zero_cipher(16);
    cipher.kdf_keysize = 128;
    let paste = paste_with(cipher, zero_paste("").ct);
    assert!(matches!(
        decrypt_with_password(&paste, &[0u8; 32], ""),
        Err(PasteError::CipherNotImplemented { keysize: 128, .. })
    ));
}

#[test]
fn bad_base64_is_reported() {
    let paste = paste_with(zero_cipher(16), "not base64!".to_string());
    assert!(matches!(decrypt_with_password(&paste, &[0u8; 32], ""), Err(PasteError::Base64Error(_))));
    let mut cipher = zero_cipher(16);
    cipher.kdf_salt = "%%%".to_string();
    let paste = paste_with(cipher, zero_paste("").ct);
    assert!(matches!(decrypt_with_password(&paste, &[0u8; 32], ""), Err(PasteError::Base64Error(_))));
    let mut cipher = zero_cipher(16);
    cipher.cipher_iv = "%%%".to_string();
    let paste = paste_with(cipher, zero_paste("").ct);
    assert!(matches!(decrypt_with_password(&paste, &[0u8; 32], ""), Err(PasteError::Base64Error(_))));
}

#[test]
fn bad_base58_key_is_reported() {
    let paste = zero_paste("");
    assert!(matches!(paste.decrypt("0OIl"), Err(PasteError::Base58Error(_))));
}

#[test]
fn vec_accessors_decode_base64() {
    let cipher = zero_cipher(16);
    assert_eq!(cipher.vec_cipher_iv().unwrap(), vec![0u8; 16]);
    assert_eq!(cipher.vec_kdf_salt().unwrap(), vec![0u8; 8]);
    let mut cipher = zero_cipher(16);
    cipher.kdf_salt = "@@".to_string();
    assert!(matches!(cipher.vec_kdf_salt(), Err(PasteError::Base64Error(_))));
}

#[test]
fn new_cipher_holds_base64_of_salt_and_nonce() {
    let cipher = Cipher::new(&[0xffu8; 8], &[0u8; 16]);
    assert_eq!(cipher.kdf_salt, "//////////8=");
    assert_eq!(cipher.cipher_iv, "AAAAAAAAAAAAAAAAAAAAAA==");
    assert_eq!(cipher.kdf_iterations, 100000);
    assert_eq!(cipher.kdf_keysize, 256);
    assert_eq!(cipher.cipher_tag_size, 128);
    assert_eq!(cipher.cipher_algo, "aes");
    assert_eq!(cipher.cipher_mode, "gcm");
    assert_eq!(cipher.compression_type, CompressionType::Zlib);
}

#[test]
fn round_trip_with_various_passwords() {
    for password in ["", "x", "correct horse battery staple", "pässwörd ✓"] {
        for content in ["", "a", "{\"paste\":\"line1\\nline2\"}", "ünïcödé ✓ text"] {
            let (paste, key) =
                Paste::encrypt_new(content, password, PasteFormat::Plaintext, false, false, "1week".to_string()).unwrap();
            assert_eq!(paste.decrypt_with_password(&key, password).unwrap(), content.as_bytes());
        }
    }
}

#[test]
fn large_payload_round_trip() {
    let content: String = (0..200_000).map(|i| char::from(b'a' + (i % 26) as u8)).collect();
    let (paste, key) = Paste::encrypt_new(&content, "pw", PasteFormat::Markdown, true, false, "1day".to_string()).unwrap();
    assert_eq!(paste.decrypt_with_password(&key, "pw").unwrap(), content.as_bytes());
}

#[test]
fn new_paste_fields() {
    let (paste, key) = Paste::encrypt_new(PAYLOAD, "", PasteFormat::Syntax, true, false, "1week".to_string()).unwrap();
    assert_eq!(paste.v, 2);
    assert_eq!(paste.meta.expire.as_deref(), Some("1week"));
    assert_eq!(paste.adata.discuss, 1);
    assert_eq!(paste.adata.burn, 0);
    assert!(matches!(paste.adata.format, PasteFormat::Syntax));
    assert_eq!(base64::decode(&paste.adata.cipher.kdf_salt).unwrap().len(), 8);
    assert_eq!(base64::decode(&paste.adata.cipher.cipher_iv).unwrap().len(), 16);
    let secret = bs58::decode(&key).into_vec().unwrap();
    assert_eq!(secret.len(), 32);
    assert_ne!(key.as_bytes(), &secret[..]);
    assert_eq!(decrypt_with_password(&paste, &secret, "").unwrap(), PAYLOAD.as_bytes());
    let (other, other_key) = Paste::encrypt_new(PAYLOAD, "", PasteFormat::Syntax, true, false, "1week".to_string()).unwrap();
    assert_ne!(key, other_key);
    assert_ne!(paste.ct, other.ct);
}

#[test]
fn comment_round_trip() {
    let (paste, key) = Paste::encrypt_new(PAYLOAD, "pw", PasteFormat::Plaintext, true, false, "1week".to_string()).unwrap();
    let body = "{\"comment\":\"nice\",\"nickname\":\"bob\"}";
    let comment = Comment::encrypt_new(body, "pid".to_string(), "pid".to_string(), &key, "pw").unwrap();
    assert_eq!(comment.v, 2);
    assert_eq!(comment.pasteid, "pid");
    assert_eq!(comment.parentid, "pid");
    assert_eq!(comment.decrypt_with_password(&key, "pw").unwrap(), body.as_bytes());
    assert!(matches!(comment.decrypt(&key), Err(PasteError::Aes(_))));
    assert!(matches!(
        Comment::encrypt_new(body, "pid".to_string(), "pid".to_string(), "0OIl", "pw"),
        Err(PasteError::Base58Error(_))
    ));
    drop(paste);
}

#[test]
fn decrypt_comments_in_order() {
    let (mut paste, key) = Paste::encrypt_new(PAYLOAD, "", PasteFormat::Plaintext, true, false, "1week".to_string()).unwrap();
    assert!(paste.decrypt_comments(&key).unwrap().is_empty());
    let mut a = Comment::encrypt_new("{\"comment\":\"A\"}", "p".to_string(), "p".to_string(), &key, "").unwrap();
    a.id = "a".to_string();
    let mut b = Comment::encrypt_new("{\"comment\":\"B\"}", "p".to_string(), "a".to_string(), &key, "").unwrap();
    b.id = "b".to_string();
    paste.comments = Some(vec![a, b]);
    let out = paste.decrypt_comments(&key).unwrap();
    assert_eq!(out.len(), 2);
    assert_eq!(out[0].0, "a");
    assert_eq!(out[0].1, b"{\"comment\":\"A\"}");
    assert_eq!(out[1].0, "b");
    assert_eq!(out[1].1, b"{\"comment\":\"B\"}");
    assert!(paste.decrypt_comments_with_password(&key, "wrong").unwrap().is_empty());
    assert!(matches!(paste.decrypt_comments("0OIl"), Err(PasteError::Base58Error(_))));
}

#[test]
fn failed_comment_is_left_out() {
    let (mut paste, key) = Paste::encrypt_new(PAYLOAD, "", PasteFormat::Plaintext, true, false, "1week".to_string()).unwrap();
    let mut a = Comment::encrypt_new("{\"comment\":\"A\"}", "p".to_string(), "p".to_string(), &key, "").unwrap();
    a.id = "a".to_string();
    let mut b = Comment::encrypt_new("{\"comment\":\"B\"}", "p".to_string(), "a".to_string(), &key, "other").unwrap();
    b.id = "b".to_string();
    let mut c = Comment::encrypt_new("{\"comment\":\"C\"}", "p".to_string(), "b".to_string(), &key, "").unwrap();
    c.id = "c".to_string();
    paste.comments = Some(vec![a, b, c]);
    let out = paste.decrypt_comments(&key).unwrap();
    let ids: Vec<&str> = out.iter().map(|(id, _)| id.as_str()).collect();
    assert_eq!(ids, vec!["a", "c"]);
    assert_eq!(out[1].1, b"{\"comment\":\"C\"}");
}

#[test]
fn compression_round_trip() {
    for data in [&b""[..], b"a", b"hello hello hello hello", &[0u8; 5000][..]] {
        let blob = compress(data);
        assert_eq!(decompress(&blob).unwrap(), data);
    }
    let blob = compress(&[0u8; 5000]);
    assert!(blob.len() < 5000);
}

#[test]
fn corrupt_or_truncated_blob_is_refused() {
    let blob = compress(b"hello hello hello hello, a longer text to compress");
    assert!(matches!(decompress(&blob[..blob.len() / 2]), Err(PasteError::Zlib(_))));
    assert!(matches!(decompress(&[0xffu8, 0xff, 0xff]), Err(PasteError::Zlib(_))));
}

#[test]
fn key_derivation_is_deterministic() {
    let a = derive_key(100000, &[1u8; 8], &[2u8; 32], "pw").unwrap();
    let b = derive_key(100000, &[1u8; 8], &[2u8; 32], "pw").unwrap();
    assert_eq!(a, b);
    assert_eq!(a.len(), 32);
    let c = derive_key(99999, &[1u8; 8], &[2u8; 32], "pw").unwrap();
    assert_ne!(a, c);
    assert!(derive_key(0, &[1u8; 8], &[2u8; 32], "pw").is_none());
}

#[test]
fn key_derivation_known_vector() {
    // PBKDF2-HMAC-SHA256, P = "passwd", S = "salt", c = 1 (RFC 7914, first 32 bytes).
    let expected = hex("55ac046e56e3089fec1691c22544b605f94185216dde0465e68b9d57c20dacbc");
    assert_eq!(derive_key(1, b"salt", b"passwd", "").unwrap(), expected);
    assert_eq!(derive_key(1, b"salt", b"pass", "wd").unwrap(), expected);
    assert_eq!(derive_key(1, b"salt", b"", "passwd").unwrap(), expected);
}

#[test]
fn aes_gcm_known_vectors() {
    // AES-256-GCM with a zero key and a zero 96-bit nonce (GCM specification, cases 13 and 14).
    assert_eq!(seal(&[0u8; 32], &[0u8; 12], &[], &[]).unwrap(), hex("530f8afbc74536b9a963b4f1c4cb738b"));
    let sealed = seal(&[0u8; 32], &[0u8; 12], &[], &[0u8; 16]).unwrap();
    assert_eq!(sealed, hex("cea7403d4d606b6e074ec5d3baf39d18d0d1c8a799996bf0265b98b5d48ab919"));
    assert_eq!(open(&[0u8; 32], &[0u8; 12], &[], &sealed).unwrap(), vec![0u8; 16]);
    assert!(open(&[0u8; 32], &[0u8; 12], b"x", &sealed).is_err());
    assert!(open(&[0u8; 32], &[0u8; 12], &[], &sealed[..10]).is_err());
}

#[test]
fn ciphertext_is_blob_plus_tag() {
    let blob = compress(PAYLOAD.as_bytes());
    let ct = encrypt(PAYLOAD, &[0u8; 32], "", &[0u8; 8], &[0u8; 16], 1000, "[]").unwrap();
    assert_eq!(ct.len(), blob.len() + 16);
}

#[test]
fn new_cipher_texts_are_base64_of_inputs() {
    let salt = [1u8, 2, 3, 4, 5, 6, 7, 8];
    let nonce = [9u8; 16];
    let cipher = Cipher::new(&salt, &nonce);
    assert_eq!(cipher.kdf_salt, base64::encode(salt));
    assert_eq!(cipher.cipher_iv, base64::encode(nonce));
    assert_eq!(cipher.vec_kdf_salt().unwrap(), salt.to_vec());
    assert_eq!(cipher.vec_cipher_iv().unwrap(), nonce.to_vec());
}
